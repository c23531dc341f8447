//! The WebSocket handshake, from the room lookup to a live connection, as a
//! state machine: each step takes what the store, the socket or the session
//! answered and says what to send, whether to register or drop the connected
//! member, and what to ask next. A refused connection gets one `AuthFail` and
//! leaves the room's connected members as they were; an accepted one gets one
//! `AuthOk`, then the history, then `HistoryComplete`, then the announcement;
//! and every closed connection has unregistered the member as often as it
//! registered it.
use vstd::prelude::*;
use crate::membership::{socket_admission, SocketAdmission};
use crate::messages::StoredMessage;
use crate::realtime::{
    broadcasts, connection_announcement, departure_frames, joined_text, stored_message_to_chat, ChatMessage, ReadReceipt,
    RoomMember,
};
use crate::socket::{auth_fail, auth_ok, locked_auth_frame, AuthFailure};
use crate::text::copy_str;

verus! {

broadcast use vstd::string::group_string_axioms;

/// Where a handshake stands, which is also what the connection does next.
#[derive(Clone, Copy, Debug, PartialEq, Eq, Structural)]
pub enum HandshakeStage {
    /// Look the room up.
    AwaitRoom,
    /// Wait (with the authentication timeout) for the first frame.
    AwaitFirstFrame,
    /// Authenticate the first frame.
    AwaitAuthentication,
    /// Read the room's chat lock.
    AwaitLock,
    /// Read the account's membership.
    AwaitMembership,
    /// Activate the membership of an open room.
    AwaitActivation,
    /// Register the member as connected (the `Connect` action) and report the roster.
    AwaitConnection,
    /// Read the room's participants.
    AwaitParticipants,
    /// Read the read receipts and the viewer's title for the room.
    AwaitRoster,
    /// Subscribe to the room and read the history to replay.
    AwaitHistory,
    /// The connection is live: the room's frames are forwarded to it and its
    /// own frames are handled, until its stream ends.
    Live,
    /// The stream ended: stop forwarding and unregister the member, who is
    /// reported back with the remaining members.
    Departing,
    /// The connection is closed.
    Closed,
}

/// How the first frame arrived.
#[derive(Clone, Copy, Debug, PartialEq, Eq, Structural)]
pub enum FirstFrame {
    /// Nothing came within the authentication timeout.
    Timeout,
    /// The socket closed or sent something other than text.
    NotText,
    /// The text was not a frame.
    InvalidJson,
    /// A frame was read; it goes to authentication.
    Parsed,
}

/// Why the history could not be replayed.
#[derive(Clone, Copy, Debug, PartialEq, Eq, Structural)]
pub enum HistoryFailure {
    /// The room's live channel is gone.
    Unsubscribed,
    /// The history (or its boundary) could not be read.
    Unavailable,
}

/// What a handshake step was told.
pub enum HandshakeEvent {
    /// The room's name and join policy, or none when there is no such room.
    RoomFound(Option<(String, String)>),
    FirstFrame(FirstFrame),
    /// The authenticated account's id and name, or the refusal reason.
    Authenticated(Result<(u128, String), String>),
    /// The room's chat lock: its reason when locked.
    LockRead(Result<Option<String>, ()>),
    /// The account's membership status in the room, if any.
    MembershipRead(Result<Option<String>, ()>),
    /// Whether activating the open-room membership succeeded.
    Activated(bool),
    /// The connected members after registering, and whether this is the
    /// account's first connection to the room.
    Connected(Vec<RoomMember>, bool),
    ParticipantsRead(Result<Vec<RoomMember>, ()>),
    /// The viewer's own title for the room (a direct conversation's) and the
    /// read receipts.
    RosterRead(Option<String>, Vec<ReadReceipt>),
    /// The messages to replay, oldest first.
    HistoryRead(Result<Vec<StoredMessage>, HistoryFailure>),
    /// The live connection's stream ended (closed, failed, or the forwarder
    /// closed the socket).
    StreamEnded,
    /// The member was unregistered: the members still connected, whether this
    /// was the account's last connection, and the room's participants.
    Departed(Vec<RoomMember>, bool, Vec<RoomMember>),
}

/// What the connection does.
pub enum SocketAction {
    /// Send a frame to this socket.
    Send(ChatMessage),
    /// Register the member as connected to the room.
    Connect,
    /// Unregister the member.
    Disconnect,
    /// Send a frame to everyone in the room.
    Broadcast(ChatMessage),
    /// Start forwarding the room's live frames to this socket.
    StartForwarding,
    /// Stop forwarding.
    StopForwarding,
}

/// A handshake in progress.
pub struct Handshake {
    pub stage: HandshakeStage,
    pub room_name: String,
    pub join_policy: String,
    pub user_id: u128,
    pub username: String,
    /// The membership was activated by this connection.
    pub joined: bool,
    pub members: Vec<RoomMember>,
    pub first_connection: bool,
    pub participants: Vec<RoomMember>,
}

/// The kind of an action, as the order of a handshake is stated.
#[derive(Clone, Copy, Debug, PartialEq, Eq, Structural)]
pub enum ActionKind {
    AuthFail,
    AuthOk,
    HistoryFrame,
    HistoryComplete,
    Notice,
    OtherFrame,
    Connect,
    Disconnect,
    Broadcast,
    StartForwarding,
    StopForwarding,
}

pub open spec fn kind_of(a: SocketAction) -> ActionKind {
    match a {
        SocketAction::Send(ChatMessage::AuthFail { .. }) => ActionKind::AuthFail,
        SocketAction::Send(ChatMessage::AuthOk { .. }) => ActionKind::AuthOk,
        SocketAction::Send(ChatMessage::Broadcast { .. }) => ActionKind::HistoryFrame,
        SocketAction::Send(ChatMessage::HistoryComplete) => ActionKind::HistoryComplete,
        SocketAction::Send(ChatMessage::System { .. }) => ActionKind::Notice,
        SocketAction::Send(_) => ActionKind::OtherFrame,
        SocketAction::Connect => ActionKind::Connect,
        SocketAction::Disconnect => ActionKind::Disconnect,
        SocketAction::Broadcast(_) => ActionKind::Broadcast,
        SocketAction::StartForwarding => ActionKind::StartForwarding,
        SocketAction::StopForwarding => ActionKind::StopForwarding,
    }
}

/// The kinds of a list of actions, in order.
pub open spec fn kinds(actions: Seq<SocketAction>) -> Seq<ActionKind> {
    actions.map_values(|a: SocketAction| kind_of(a))
}

/// What the order of a handshake depends on: its stage, the room's join policy,
/// whether this connection activated the membership, and whether it is the
/// account's first connection.
pub open spec fn progress(s: Handshake) -> (HandshakeStage, Seq<char>, bool, bool) {
    (s.stage, s.join_policy@, s.joined, s.first_connection)
}

/// Where a handshake starts.
pub open spec fn start_progress() -> (HandshakeStage, Seq<char>, bool, bool) {
    (HandshakeStage::AwaitRoom, Seq::empty(), false, false)
}

/// Closes with one refusal frame.
pub open spec fn refuse(p: (HandshakeStage, Seq<char>, bool, bool)) -> ((HandshakeStage, Seq<char>, bool, bool), Seq<ActionKind>) {
    ((HandshakeStage::Closed, p.1, p.2, p.3), seq![ActionKind::AuthFail])
}

/// Moves to `stage` with no action.
pub open spec fn go(p: (HandshakeStage, Seq<char>, bool, bool), stage: HandshakeStage) -> ((HandshakeStage, Seq<char>, bool, bool), Seq<ActionKind>) {
    ((stage, p.1, p.2, p.3), seq![])
}

/// The kinds of the live connection's first actions: the replay of `n` messages,
/// the end-of-history marker, the announcement when there is one, and the start
/// of forwarding.
pub open spec fn replay_kinds(n: nat, announce: bool) -> Seq<ActionKind> {
    Seq::new(n, |i: int| ActionKind::HistoryFrame) + seq![ActionKind::HistoryComplete] + (if announce {
        seq![ActionKind::Broadcast]
    } else {
        Seq::empty()
    }) + seq![ActionKind::StartForwarding]
}

/// The kinds of what a departure broadcasts: the cleared typing indicator and
/// the presence when it was the account's last connection, else nothing.
pub open spec fn departure_kinds(last_connection: bool) -> Seq<ActionKind> {
    if last_connection {
        seq![ActionKind::Broadcast, ActionKind::Broadcast]
    } else {
        Seq::empty()
    }
}

/// One step of the handshake: the next stage (with the join policy and the
/// connection flags) and the kinds of the actions taken. An event that does not
/// belong to the current stage changes nothing.
pub open spec fn handshake_next(p: (HandshakeStage, Seq<char>, bool, bool), e: HandshakeEvent) -> ((HandshakeStage, Seq<char>, bool, bool), Seq<ActionKind>) {
    match p.0 {
        HandshakeStage::AwaitRoom => match e {
            HandshakeEvent::RoomFound(None) => refuse(p),
            HandshakeEvent::RoomFound(Some((_, policy))) => (
                (HandshakeStage::AwaitFirstFrame, policy@, p.2, p.3),
                seq![],
            ),
            _ => (p, seq![]),
        },
        HandshakeStage::AwaitFirstFrame => match e {
            HandshakeEvent::FirstFrame(FirstFrame::Parsed) => go(p, HandshakeStage::AwaitAuthentication),
            HandshakeEvent::FirstFrame(FirstFrame::NotText) => go(p, HandshakeStage::Closed),
            HandshakeEvent::FirstFrame(_) => refuse(p),
            _ => (p, seq![]),
        },
        HandshakeStage::AwaitAuthentication => match e {
            HandshakeEvent::Authenticated(Ok(_)) => go(p, HandshakeStage::AwaitLock),
            HandshakeEvent::Authenticated(Err(_)) => refuse(p),
            _ => (p, seq![]),
        },
        HandshakeStage::AwaitLock => match e {
            HandshakeEvent::LockRead(Ok(None)) => go(p, HandshakeStage::AwaitMembership),
            HandshakeEvent::LockRead(_) => refuse(p),
            _ => (p, seq![]),
        },
        HandshakeStage::AwaitMembership => match e {
            HandshakeEvent::MembershipRead(Err(_)) => go(p, HandshakeStage::Closed),
            HandshakeEvent::MembershipRead(Ok(status)) => if status matches Some(st) && st@ == "active"@ {
                ((HandshakeStage::AwaitConnection, p.1, false, p.3), seq![ActionKind::Connect])
            } else if p.1 == "open"@ {
                go(p, HandshakeStage::AwaitActivation)
            } else {
                refuse(p)
            },
            _ => (p, seq![]),
        },
        HandshakeStage::AwaitActivation => match e {
            HandshakeEvent::Activated(true) => (
                (HandshakeStage::AwaitConnection, p.1, true, p.3),
                seq![ActionKind::Connect],
            ),
            HandshakeEvent::Activated(false) => refuse(p),
            _ => (p, seq![]),
        },
        HandshakeStage::AwaitConnection => match e {
            HandshakeEvent::Connected(_, first) => ((HandshakeStage::AwaitParticipants, p.1, p.2, first), seq![]),
            _ => (p, seq![]),
        },
        HandshakeStage::AwaitParticipants => match e {
            HandshakeEvent::ParticipantsRead(Ok(_)) => go(p, HandshakeStage::AwaitRoster),
            HandshakeEvent::ParticipantsRead(Err(_)) => (
                (HandshakeStage::Closed, p.1, p.2, p.3),
                seq![ActionKind::Disconnect, ActionKind::AuthFail],
            ),
            _ => (p, seq![]),
        },
        HandshakeStage::AwaitRoster => match e {
            HandshakeEvent::RosterRead(_, _) => ((HandshakeStage::AwaitHistory, p.1, p.2, p.3), seq![ActionKind::AuthOk]),
            _ => (p, seq![]),
        },
        HandshakeStage::AwaitHistory => match e {
            HandshakeEvent::HistoryRead(Ok(history)) => (
                (HandshakeStage::Live, p.1, p.2, p.3),
                replay_kinds(history@.len(), p.2 || p.3),
            ),
            HandshakeEvent::HistoryRead(Err(HistoryFailure::Unsubscribed)) => (
                (HandshakeStage::Closed, p.1, p.2, p.3),
                seq![ActionKind::Disconnect],
            ),
            HandshakeEvent::HistoryRead(Err(HistoryFailure::Unavailable)) => (
                (HandshakeStage::Closed, p.1, p.2, p.3),
                seq![ActionKind::Notice, ActionKind::Disconnect],
            ),
            _ => (p, seq![]),
        },
        HandshakeStage::Live => match e {
            HandshakeEvent::StreamEnded => (
                (HandshakeStage::Departing, p.1, p.2, p.3),
                seq![ActionKind::StopForwarding, ActionKind::Disconnect],
            ),
            _ => (p, seq![]),
        },
        HandshakeStage::Departing => match e {
            HandshakeEvent::Departed(_, last, _) => ((HandshakeStage::Closed, p.1, p.2, p.3), departure_kinds(last)),
            _ => (p, seq![]),
        },
        HandshakeStage::Closed => (p, seq![]),
    }
}

/// The room name a step leaves: the one the room lookup found, else the one held.
pub open spec fn carried_room_name(s: Handshake, e: HandshakeEvent) -> Seq<char> {
    match e {
        HandshakeEvent::RoomFound(Some((name, _))) if s.stage == HandshakeStage::AwaitRoom => name@,
        _ => s.room_name@,
    }
}

/// The account a step leaves: the one authentication found, else the one held.
pub open spec fn carried_user(s: Handshake, e: HandshakeEvent) -> (u128, Seq<char>) {
    match e {
        HandshakeEvent::Authenticated(Ok((id, name))) if s.stage == HandshakeStage::AwaitAuthentication => (id, name@),
        _ => (s.user_id, s.username@),
    }
}

/// The connected members a step leaves: those reported on registering, else
/// the ones held.
pub open spec fn carried_members(s: Handshake, e: HandshakeEvent) -> Seq<RoomMember> {
    match e {
        HandshakeEvent::Connected(members, _) if s.stage == HandshakeStage::AwaitConnection => members@,
        _ => s.members@,
    }
}

/// The participants a step leaves: those read, else the ones held.
pub open spec fn carried_participants(s: Handshake, e: HandshakeEvent) -> Seq<RoomMember> {
    match e {
        HandshakeEvent::ParticipantsRead(Ok(participants)) if s.stage == HandshakeStage::AwaitParticipants => participants@,
        _ => s.participants@,
    }
}

/// The reason a step refuses the connection with.
pub open spec fn refusal_text(p: (HandshakeStage, Seq<char>, bool, bool), e: HandshakeEvent) -> Seq<char> {
    match e {
        HandshakeEvent::RoomFound(_) => "room not found"@,
        HandshakeEvent::FirstFrame(FirstFrame::Timeout) => "authentication timeout"@,
        HandshakeEvent::FirstFrame(_) => "invalid json"@,
        HandshakeEvent::Authenticated(Err(reason)) => reason@,
        HandshakeEvent::LockRead(Ok(Some(reason))) => reason@,
        HandshakeEvent::MembershipRead(Ok(status)) => if status matches Some(st) && st@ == "pending"@ {
            "membership pending"@
        } else {
            "membership required"@
        },
        _ => "authentication unavailable"@,
    }
}

/// A new handshake, about to look the room up.
pub fn handshake_start() -> (s: Handshake)
    ensures
        progress(s) == start_progress(),
{
    Handshake {
        stage: HandshakeStage::AwaitRoom,
        room_name: String::new(),
        join_policy: String::new(),
        user_id: 0,
        username: String::new(),
        joined: false,
        members: Vec::new(),
        first_connection: false,
        participants: Vec::new(),
    }
}

fn copy_members(v: &Vec<RoomMember>) -> (r: Vec<RoomMember>)
    ensures
        r@ == v@,
{
    let mut r: Vec<RoomMember> = Vec::new();
    let mut i: usize = 0;
    while i < v.len()
        invariant
            i <= v.len(),
            r@ == v@.subrange(0, i as int),
        decreases v.len() - i,
    {
        let m = &v[i];
        r.push(RoomMember { user_id: m.user_id, username: m.username.clone(), avatar_emoji: m.avatar_emoji.clone() });
        i += 1;
        assert(r@ =~= v@.subrange(0, i as int));
    }
    assert(r@ =~= v@);
    r
}

fn refused(s: Handshake, reason: ChatMessage) -> (r: (Handshake, Vec<SocketAction>))
    ensures
        r.0.stage == HandshakeStage::Closed,
        r.0.join_policy == s.join_policy,
        r.0.joined == s.joined,
        r.0.first_connection == s.first_connection,
        r.0.room_name == s.room_name,
        r.0.user_id == s.user_id,
        r.0.username == s.username,
        r.0.members == s.members,
        r.0.participants == s.participants,
        r.1@ == seq![SocketAction::Send(reason)],
{
    let mut s = s;
    s.stage = HandshakeStage::Closed;
    let mut actions: Vec<SocketAction> = Vec::new();
    actions.push(SocketAction::Send(reason));
    (s, actions)
}

fn moved(s: Handshake, stage: HandshakeStage) -> (r: (Handshake, Vec<SocketAction>))
    ensures
        r.0.stage == stage,
        r.0.join_policy == s.join_policy,
        r.0.joined == s.joined,
        r.0.first_connection == s.first_connection,
        r.0.room_name == s.room_name,
        r.0.user_id == s.user_id,
        r.0.username == s.username,
        r.0.members == s.members,
        r.0.participants == s.participants,
        r.1@ == Seq::<SocketAction>::empty(),
{
    let mut s = s;
    s.stage = stage;
    (s, Vec::new())
}

/// The replay of a live connection: each message's broadcast frame, oldest
/// first, then `HistoryComplete`, then the announcement (when there is one),
/// then the start of forwarding.
fn replay(history: Vec<StoredMessage>, announcement: Option<ChatMessage>) -> (r: Vec<SocketAction>)
    ensures
        kinds(r@) == replay_kinds(history@.len(), announcement is Some),
        forall|i: int| 0 <= i < history@.len() ==> (#[trigger] r@[i] matches SocketAction::Send(f) && broadcasts(f, history@[i])),
        r@[history@.len() as int] matches SocketAction::Send(ChatMessage::HistoryComplete),
        announcement matches Some(a) ==> r@[history@.len() + 1int] == SocketAction::Broadcast(a),
        forall|i: int| 0 <= i < r@.len() ==> !(#[trigger] r@[i] matches SocketAction::Send(ChatMessage::AuthFail { .. })),
{
    let ghost all = history@;
    let n = history.len();
    let mut rest = history;
    let mut out: Vec<SocketAction> = Vec::new();
    let mut i: usize = 0;
    while i < n
        invariant
            n == all.len(),
            i <= n,
            rest@ == all.subrange(i as int, n as int),
            out@.len() == i,
            forall|k: int| 0 <= k < i ==> (#[trigger] out@[k] matches SocketAction::Send(f) && broadcasts(f, all[k])),
        decreases n - i,
    {
        let m = rest.remove(0);
        assert(m == all[i as int]);
        out.push(SocketAction::Send(stored_message_to_chat(m)));
        i += 1;
        assert(rest@ =~= all.subrange(i as int, n as int));
    }
    out.push(SocketAction::Send(ChatMessage::HistoryComplete));
    let has_announcement = announcement.is_some();
    match announcement {
        Some(a) => out.push(SocketAction::Broadcast(a)),
        None => {},
    }
    out.push(SocketAction::StartForwarding);
    proof {
        let expected = replay_kinds(n as nat, has_announcement);
        assert forall|k: int| 0 <= k < out@.len() implies kinds(out@)[k] == expected[k] by {
            if k < n {
                assert(out@[k] matches SocketAction::Send(f) && broadcasts(f, all[k]));
            }
        }
        assert(kinds(out@) =~= expected);
        assert forall|k: int| 0 <= k < out@.len() implies !(#[trigger] out@[k] matches SocketAction::Send(ChatMessage::AuthFail { .. })) by {
            assert(kinds(out@)[k] == kind_of(out@[k]));
        }
    }
    out
}

/// Takes one step of the handshake. Its stage, policy and flags move as
/// `handshake_next` says and its actions have the kinds it gives; besides:
/// a refusal sends `AuthFail` with `refusal_text`; `AuthOk` carries the
/// viewer's title (or the room's name), the connected members, the participants
/// and the receipts; the replay sends each history message's broadcast in order
/// and the announcement is the joined notice (a membership activated here) or
/// the presence (a first connection).
#[verifier::spinoff_prover]
#[verifier::rlimit(60)]
pub fn handshake_step(s: Handshake, e: HandshakeEvent) -> (r: (Handshake, Vec<SocketAction>))
    ensures
        progress(r.0) == handshake_next(progress(s), e).0,
        kinds(r.1@) == handshake_next(progress(s), e).1,
        r.0.room_name@ == carried_room_name(s, e),
        (r.0.user_id, r.0.username@) == carried_user(s, e),
        r.0.members@ == carried_members(s, e),
        r.0.participants@ == carried_participants(s, e),
        s.stage == HandshakeStage::Departing ==> (e matches HandshakeEvent::Departed(members, true, participants) ==> (
            (r.1@[0] matches SocketAction::Broadcast(ChatMessage::Typing { content, user_id: Some(u), username: Some(n) })
                && content@.len() == 0 && u == s.user_id && n@ == s.username@)
            && (r.1@[1] matches SocketAction::Broadcast(ChatMessage::Presence { members: m, participants: p })
                && m@ == members@ && p@ == participants@))),
        forall|i: int| 0 <= i < r.1@.len() ==> (#[trigger] r.1@[i] matches SocketAction::Send(ChatMessage::AuthFail { reason })
            ==> reason@ == refusal_text(progress(s), e)),
        s.stage == HandshakeStage::AwaitRoster ==> (e matches HandshakeEvent::RosterRead(title, receipts) ==> (
            r.1@[0] matches SocketAction::Send(ChatMessage::AuthOk { room_name, members, participants, read_receipts })
            && room_name@ == (match title {
                Some(t) => t@,
                None => s.room_name@,
            }) && members@ == s.members@ && participants@ == s.participants@ && read_receipts@ == receipts@)),
        s.stage == HandshakeStage::AwaitHistory ==> (e matches HandshakeEvent::HistoryRead(Ok(history)) ==> {
            &&& forall|i: int| 0 <= i < history@.len() ==> (#[trigger] r.1@[i] matches SocketAction::Send(f) && broadcasts(f, history@[i]))
            &&& (s.joined ==> (r.1@[history@.len() + 1int] matches SocketAction::Broadcast(ChatMessage::System { content, members: Some(m), participants: Some(p) })
                && content@ == joined_text(s.username@) && m@ == s.members@ && p@ == s.participants@))
            &&& (!s.joined && s.first_connection ==> (r.1@[history@.len() + 1int] matches SocketAction::Broadcast(ChatMessage::Presence { members: m, participants: p })
                && m@ == s.members@ && p@ == s.participants@))
        }),
{
    let ghost p = progress(s);
    let ghost ev = e;
    let mut s = s;
    match s.stage {
        HandshakeStage::AwaitRoom => match e {
            HandshakeEvent::RoomFound(None) => refused(s, auth_fail(AuthFailure::RoomNotFound)),
            HandshakeEvent::RoomFound(Some((name, policy))) => {
                s.room_name = name;
                s.join_policy = policy;
                s.stage = HandshakeStage::AwaitFirstFrame;
                (s, Vec::new())
            },
            _ => (s, Vec::new()),
        },
        HandshakeStage::AwaitFirstFrame => match e {
            HandshakeEvent::FirstFrame(FirstFrame::Parsed) => moved(s, HandshakeStage::AwaitAuthentication),
            HandshakeEvent::FirstFrame(FirstFrame::NotText) => moved(s, HandshakeStage::Closed),
            HandshakeEvent::FirstFrame(FirstFrame::Timeout) => refused(s, auth_fail(AuthFailure::Timeout)),
            HandshakeEvent::FirstFrame(FirstFrame::InvalidJson) => refused(s, auth_fail(AuthFailure::InvalidJson)),
            _ => (s, Vec::new()),
        },
        HandshakeStage::AwaitAuthentication => match e {
            HandshakeEvent::Authenticated(Ok((user_id, username))) => {
                s.user_id = user_id;
                s.username = username;
                s.stage = HandshakeStage::AwaitLock;
                (s, Vec::new())
            },
            HandshakeEvent::Authenticated(Err(reason)) => refused(s, ChatMessage::AuthFail { reason }),
            _ => (s, Vec::new()),
        },
        HandshakeStage::AwaitLock => match e {
            HandshakeEvent::LockRead(lock) => match locked_auth_frame(lock) {
                None => moved(s, HandshakeStage::AwaitMembership),
                Some(frame) => refused(s, frame),
            },
            _ => (s, Vec::new()),
        },
        HandshakeStage::AwaitMembership => match e {
            HandshakeEvent::MembershipRead(Err(_)) => moved(s, HandshakeStage::Closed),
            HandshakeEvent::MembershipRead(Ok(status)) => {
                let st = match &status {
                    Some(t) => Some(t.as_str()),
                    None => None,
                };
                proof {
                    assert((st matches Some(x) && x@ == "pending"@) <==> (status matches Some(y) && y@ == "pending"@));
                    assert((st matches Some(x) && x@ == "active"@) <==> (status matches Some(y) && y@ == "active"@));
                }
                match socket_admission(st, s.join_policy.as_str()) {
                    SocketAdmission::Member => {
                        s.joined = false;
                        s.stage = HandshakeStage::AwaitConnection;
                        let mut actions: Vec<SocketAction> = Vec::new();
                        actions.push(SocketAction::Connect);
                        (s, actions)
                    },
                    SocketAdmission::AutoJoin => moved(s, HandshakeStage::AwaitActivation),
                    SocketAdmission::Refused(reason) => refused(s, ChatMessage::AuthFail { reason: copy_str(reason) }),
                }
            },
            _ => (s, Vec::new()),
        },
        HandshakeStage::AwaitActivation => match e {
            HandshakeEvent::Activated(true) => {
                s.joined = true;
                s.stage = HandshakeStage::AwaitConnection;
                let mut actions: Vec<SocketAction> = Vec::new();
                actions.push(SocketAction::Connect);
                (s, actions)
            },
            HandshakeEvent::Activated(false) => refused(s, auth_fail(AuthFailure::Unavailable)),
            _ => (s, Vec::new()),
        },
        HandshakeStage::AwaitConnection => match e {
            HandshakeEvent::Connected(members, first) => {
                s.members = members;
                s.first_connection = first;
                s.stage = HandshakeStage::AwaitParticipants;
                (s, Vec::new())
            },
            _ => (s, Vec::new()),
        },
        HandshakeStage::AwaitParticipants => match e {
            HandshakeEvent::ParticipantsRead(Ok(participants)) => {
                s.participants = participants;
                s.stage = HandshakeStage::AwaitRoster;
                (s, Vec::new())
            },
            HandshakeEvent::ParticipantsRead(Err(_)) => {
                s.stage = HandshakeStage::Closed;
                let mut actions: Vec<SocketAction> = Vec::new();
                actions.push(SocketAction::Disconnect);
                actions.push(SocketAction::Send(auth_fail(AuthFailure::Unavailable)));
                proof {
                    assert(kinds(actions@) =~= seq![ActionKind::Disconnect, ActionKind::AuthFail]);
                }
                (s, actions)
            },
            _ => (s, Vec::new()),
        },
        HandshakeStage::AwaitRoster => match e {
            HandshakeEvent::RosterRead(title, receipts) => {
                let members = copy_members(&s.members);
                let participants = copy_members(&s.participants);
                let frame = auth_ok(s.room_name.as_str(), title, members, participants, receipts);
                s.stage = HandshakeStage::AwaitHistory;
                let mut actions: Vec<SocketAction> = Vec::new();
                actions.push(SocketAction::Send(frame));
                proof {
                    assert(kinds(actions@) =~= seq![ActionKind::AuthOk]);
                }
                (s, actions)
            },
            _ => (s, Vec::new()),
        },
        HandshakeStage::AwaitHistory => match e {
            HandshakeEvent::HistoryRead(Ok(history)) => {
                let members = copy_members(&s.members);
                let participants = copy_members(&s.participants);
                let announcement = connection_announcement(s.joined, s.first_connection, s.username.as_str(), members, participants);
                let actions = replay(history, announcement);
                s.stage = HandshakeStage::Live;
                (s, actions)
            },
            HandshakeEvent::HistoryRead(Err(HistoryFailure::Unsubscribed)) => {
                s.stage = HandshakeStage::Closed;
                let mut actions: Vec<SocketAction> = Vec::new();
                actions.push(SocketAction::Disconnect);
                proof {
                    assert(kinds(actions@) =~= seq![ActionKind::Disconnect]);
                }
                (s, actions)
            },
            HandshakeEvent::HistoryRead(Err(HistoryFailure::Unavailable)) => {
                s.stage = HandshakeStage::Closed;
                let mut actions: Vec<SocketAction> = Vec::new();
                actions.push(SocketAction::Send(ChatMessage::System {
                    content: copy_str("message history is temporarily unavailable"),
                    members: None,
                    participants: None,
                }));
                actions.push(SocketAction::Disconnect);
                proof {
                    assert(kinds(actions@) =~= seq![ActionKind::Notice, ActionKind::Disconnect]);
                }
                (s, actions)
            },
            _ => (s, Vec::new()),
        },
        HandshakeStage::Live => match e {
            HandshakeEvent::StreamEnded => {
                s.stage = HandshakeStage::Departing;
                let mut actions: Vec<SocketAction> = Vec::new();
                actions.push(SocketAction::StopForwarding);
                actions.push(SocketAction::Disconnect);
                proof {
                    assert(kinds(actions@) =~= seq![ActionKind::StopForwarding, ActionKind::Disconnect]);
                }
                (s, actions)
            },
            _ => (s, Vec::new()),
        },
        HandshakeStage::Departing => match e {
            HandshakeEvent::Departed(members, last, participants) => {
                let frames = departure_frames(last, s.user_id, s.username.as_str(), members, participants);
                let mut actions: Vec<SocketAction> = Vec::new();
                let mut rest = frames;
                if last {
                    let typing = rest.remove(0);
                    let presence = rest.remove(0);
                    actions.push(SocketAction::Broadcast(typing));
                    actions.push(SocketAction::Broadcast(presence));
                }
                s.stage = HandshakeStage::Closed;
                proof {
                    assert(kinds(actions@) =~= departure_kinds(last));
                }
                (s, actions)
            },
            _ => (s, Vec::new()),
        },
        HandshakeStage::Closed => (s, Vec::new()),
    }
}

/// Runs the handshake over a sequence of events: where it ends and the kinds of
/// all actions taken, in order.
pub open spec fn handshake_run(p: (HandshakeStage, Seq<char>, bool, bool), events: Seq<HandshakeEvent>) -> ((HandshakeStage, Seq<char>, bool, bool), Seq<ActionKind>)
    decreases events.len(),
{
    if events.len() == 0 {
        (p, seq![])
    } else {
        let before = handshake_run(p, events.drop_last());
        let step = handshake_next(before.0, events.last());
        (step.0, before.1 + step.1)
    }
}

/// The kinds of a live connection's actions: registering, `AuthOk`, then the
/// replay of `n` messages (with the announcement when `announce`).
pub open spec fn live_kinds(n: nat, announce: bool) -> Seq<ActionKind> {
    seq![ActionKind::Connect, ActionKind::AuthOk] + replay_kinds(n, announce)
}

/// The kinds of a connection that went live and then ended: its live actions,
/// stopping the forwarding, unregistering, and the departure broadcasts.
pub open spec fn ended_kinds(n: nat, announce: bool, last_connection: bool) -> Seq<ActionKind> {
    live_kinds(n, announce) + seq![ActionKind::StopForwarding, ActionKind::Disconnect] + departure_kinds(
        last_connection,
    )
}

/// The actions a handshake can have taken by the time it reaches a stage.
pub open spec fn trace_fits(p: (HandshakeStage, Seq<char>, bool, bool), ks: Seq<ActionKind>) -> bool {
    match p.0 {
        HandshakeStage::AwaitConnection | HandshakeStage::AwaitParticipants | HandshakeStage::AwaitRoster => ks
            == seq![ActionKind::Connect],
        HandshakeStage::AwaitHistory => ks == seq![ActionKind::Connect, ActionKind::AuthOk],
        HandshakeStage::Live => exists|n: nat, b: bool| ks == #[trigger] live_kinds(n, b),
        HandshakeStage::Departing => exists|n: nat, b: bool|
            ks == #[trigger] live_kinds(n, b) + seq![ActionKind::StopForwarding, ActionKind::Disconnect],
        HandshakeStage::Closed => ks == Seq::<ActionKind>::empty() || ks == seq![ActionKind::AuthFail] || ks
            == seq![ActionKind::Connect, ActionKind::Disconnect, ActionKind::AuthFail] || ks == seq![
            ActionKind::Connect,
            ActionKind::AuthOk,
            ActionKind::Disconnect,
        ] || ks == seq![ActionKind::Connect, ActionKind::AuthOk, ActionKind::Notice, ActionKind::Disconnect]
            || exists|n: nat, b: bool, d: bool| ks == #[trigger] ended_kinds(n, b, d),
        _ => ks == Seq::<ActionKind>::empty(),
    }
}

proof fn lemma_run_fits(events: Seq<HandshakeEvent>)
    ensures
        trace_fits(handshake_run(start_progress(), events).0, handshake_run(start_progress(), events).1),
    decreases events.len(),
{
    if events.len() > 0 {
        lemma_run_fits(events.drop_last());
        let before = handshake_run(start_progress(), events.drop_last());
        let step = handshake_next(before.0, events.last());
        let ks = before.1 + step.1;
        assert(ks == handshake_run(start_progress(), events).1);
        if before.0.0 == HandshakeStage::Departing {
            let (n, b) = choose|n: nat, b: bool|
                before.1 == #[trigger] live_kinds(n, b) + seq![ActionKind::StopForwarding, ActionKind::Disconnect];
            if let HandshakeEvent::Departed(_, d, _) = events.last() {
                assert(ks =~= ended_kinds(n, b, d));
            } else {
                assert(ks =~= before.1);
            }
        } else if step.1.len() == 0 {
            assert(ks =~= before.1);
        } else {
            match before.0.0 {
                HandshakeStage::AwaitHistory => {
                    if let HandshakeEvent::HistoryRead(Ok(h)) = events.last() {
                        assert(ks =~= live_kinds(h@.len(), before.0.2 || before.0.3));
                    } else if let HandshakeEvent::HistoryRead(Err(HistoryFailure::Unsubscribed)) = events.last() {
                        assert(ks =~= seq![ActionKind::Connect, ActionKind::AuthOk, ActionKind::Disconnect]);
                    } else {
                        assert(ks =~= seq![ActionKind::Connect, ActionKind::AuthOk, ActionKind::Notice, ActionKind::Disconnect]);
                    }
                },
                HandshakeStage::AwaitParticipants => {
                    assert(ks =~= seq![ActionKind::Connect, ActionKind::Disconnect, ActionKind::AuthFail]);
                },
                HandshakeStage::AwaitRoster => {
                    assert(ks =~= seq![ActionKind::Connect, ActionKind::AuthOk]);
                },
                HandshakeStage::Live => {
                    let (n, b) = choose|n: nat, b: bool| before.1 == #[trigger] live_kinds(n, b);
                    assert(ks =~= live_kinds(n, b) + seq![ActionKind::StopForwarding, ActionKind::Disconnect]);
                },
                HandshakeStage::Departing => {
                    let (n, b) = choose|n: nat, b: bool|
                        before.1 == #[trigger] live_kinds(n, b) + seq![ActionKind::StopForwarding, ActionKind::Disconnect];
                    if let HandshakeEvent::Departed(_, d, _) = events.last() {
                        assert(ks =~= ended_kinds(n, b, d));
                    }
                },
                _ => {
                    assert(ks =~= step.1);
                },
            }
        }
    }
}

/// How often an action kind occurs in a list of kinds.
pub open spec fn occurrences(ks: Seq<ActionKind>, k: ActionKind) -> nat
    decreases ks.len(),
{
    if ks.len() == 0 {
        0
    } else {
        occurrences(ks.drop_last(), k) + if ks.last() == k {
            1nat
        } else {
            0nat
        }
    }
}

proof fn lemma_occurrences_append(a: Seq<ActionKind>, b: Seq<ActionKind>, k: ActionKind)
    ensures
        occurrences(a + b, k) == occurrences(a, k) + occurrences(b, k),
    decreases b.len(),
{
    if b.len() == 0 {
        assert(a + b =~= a);
    } else {
        lemma_occurrences_append(a, b.drop_last(), k);
        assert((a + b).drop_last() =~= a + b.drop_last());
    }
}

proof fn lemma_occurrences_none(ks: Seq<ActionKind>, k: ActionKind)
    requires
        forall|i: int| 0 <= i < ks.len() ==> ks[i] != k,
    ensures
        occurrences(ks, k) == 0,
    decreases ks.len(),
{
    if ks.len() > 0 {
        lemma_occurrences_none(ks.drop_last(), k);
    }
}

proof fn lemma_replay_kinds(n: nat, b: bool, i: int)
    requires
        0 <= i < replay_kinds(n, b).len(),
    ensures
        replay_kinds(n, b).len() == n + 2 + (if b {
            1int
        } else {
            0int
        }),
        i < n ==> replay_kinds(n, b)[i] == ActionKind::HistoryFrame,
        i == n ==> replay_kinds(n, b)[i] == ActionKind::HistoryComplete,
        n < i < replay_kinds(n, b).len() - 1 ==> replay_kinds(n, b)[i] == ActionKind::Broadcast,
        i == replay_kinds(n, b).len() - 1 ==> replay_kinds(n, b)[i] == ActionKind::StartForwarding,
{
}

/// The kinds that never occur in a replay.
proof fn lemma_replay_lacks(n: nat, b: bool, k: ActionKind)
    requires
        k != ActionKind::HistoryFrame,
        k != ActionKind::HistoryComplete,
        k != ActionKind::Broadcast,
        k != ActionKind::StartForwarding,
    ensures
        occurrences(replay_kinds(n, b), k) == 0,
        !replay_kinds(n, b).contains(k),
{
    assert forall|i: int| 0 <= i < replay_kinds(n, b).len() implies replay_kinds(n, b)[i] != k by {
        lemma_replay_kinds(n, b, i);
    }
    lemma_occurrences_none(replay_kinds(n, b), k);
}

proof fn lemma_replay_starts_once(n: nat, b: bool)
    ensures
        occurrences(replay_kinds(n, b), ActionKind::StartForwarding) == 1,
{
    let r = replay_kinds(n, b);
    let front = r.drop_last();
    assert forall|i: int| 0 <= i < front.len() implies front[i] != ActionKind::StartForwarding by {
        lemma_replay_kinds(n, b, i);
    }
    lemma_occurrences_none(front, ActionKind::StartForwarding);
    lemma_replay_kinds(n, b, r.len() - 1);
}

/// A kind that may follow a live connection's replay.
pub open spec fn closing_kind(k: ActionKind) -> bool {
    k == ActionKind::StopForwarding || k == ActionKind::Disconnect || k == ActionKind::Broadcast
}

proof fn lemma_after_auth(n: nat, b: bool, rest: Seq<ActionKind>, i: int)
    requires
        forall|j: int| 0 <= j < rest.len() ==> closing_kind(#[trigger] rest[j]),
        0 <= i < live_kinds(n, b).len() + rest.len(),
    ensures
        (live_kinds(n, b) + rest)[i] != ActionKind::AuthFail,
        i != 1 ==> (live_kinds(n, b) + rest)[i] != ActionKind::AuthOk,
        i == 0 ==> (live_kinds(n, b) + rest)[i] == ActionKind::Connect,
        i == 1 ==> (live_kinds(n, b) + rest)[i] == ActionKind::AuthOk,
{
    let l = live_kinds(n, b);
    if i >= l.len() {
        assert((l + rest)[i] == rest[i - l.len()]);
    } else if i >= 2 {
        lemma_replay_kinds(n, b, i - 2);
        assert((l + rest)[i] == replay_kinds(n, b)[i - 2]);
    }
}

/// The actions of a connection that got past `AuthOk`: its live actions and
/// whatever it did on ending.
pub open spec fn accepted_trace(ks: Seq<ActionKind>) -> bool {
    exists|n: nat, b: bool, rest: Seq<ActionKind>|
        (forall|j: int| 0 <= j < rest.len() ==> closing_kind(#[trigger] rest[j])) && ks == #[trigger] live_kinds(n, b).add(rest)
}

proof fn lemma_fits_accepted(p: (HandshakeStage, Seq<char>, bool, bool), ks: Seq<ActionKind>)
    requires
        trace_fits(p, ks),
        p.0 == HandshakeStage::Live || p.0 == HandshakeStage::Departing || (p.0 == HandshakeStage::Closed
            && exists|n: nat, b: bool, d: bool| ks == #[trigger] ended_kinds(n, b, d)),
    ensures
        accepted_trace(ks),
{
    let tail = seq![ActionKind::StopForwarding, ActionKind::Disconnect];
    if p.0 == HandshakeStage::Live {
        let (n, b) = choose|n: nat, b: bool| ks == #[trigger] live_kinds(n, b);
        let rest = Seq::<ActionKind>::empty();
        assert(ks =~= live_kinds(n, b) + rest);
    } else if p.0 == HandshakeStage::Departing {
        let (n, b) = choose|n: nat, b: bool| ks == #[trigger] live_kinds(n, b) + tail;
        assert(forall|j: int| 0 <= j < tail.len() ==> closing_kind(#[trigger] tail[j]));
    } else {
        let (n, b, d) = choose|n: nat, b: bool, d: bool| ks == #[trigger] ended_kinds(n, b, d);
        let rest = tail + departure_kinds(d);
        assert(ks =~= live_kinds(n, b) + rest);
        assert(forall|j: int| 0 <= j < rest.len() ==> closing_kind(#[trigger] rest[j]));
    }
}

/// A refused connection is sent exactly one frame, its `AuthFail`, and nothing
/// else: no `AuthOk`, no history, no broadcast; a member registered on the way
/// is unregistered before the refusal, so the room's connected members end as
/// they began.
pub proof fn law_refused_connection_gets_one_refusal(events: Seq<HandshakeEvent>)
    ensures
        handshake_run(start_progress(), events).1.contains(ActionKind::AuthFail) ==> {
            let ks = handshake_run(start_progress(), events).1;
            &&& handshake_run(start_progress(), events).0.0 == HandshakeStage::Closed
            &&& (ks == seq![ActionKind::AuthFail] || ks == seq![ActionKind::Connect, ActionKind::Disconnect, ActionKind::AuthFail])
        },
{
    lemma_run_fits(events);
    let r = handshake_run(start_progress(), events);
    if r.1.contains(ActionKind::AuthFail) {
        let k = choose|k: int| 0 <= k < r.1.len() && r.1[k] == ActionKind::AuthFail;
        if r.0.0 == HandshakeStage::Live || r.0.0 == HandshakeStage::Departing || (r.0.0 == HandshakeStage::Closed
            && exists|n: nat, b: bool, d: bool| r.1 == #[trigger] ended_kinds(n, b, d)) {
            lemma_fits_accepted(r.0, r.1);
            let (n, b, rest) = choose|n: nat, b: bool, rest: Seq<ActionKind>|
                (forall|j: int| 0 <= j < rest.len() ==> closing_kind(#[trigger] rest[j])) && r.1 == #[trigger] live_kinds(n, b).add(rest);
            lemma_after_auth(n, b, rest, k);
        }
    }
}

/// An accepted connection is sent `AuthOk` exactly once, after registering the
/// member and before anything else is sent to it; the replayed history, the
/// end-of-history marker and the announcement all follow it. A live connection
/// has taken exactly: register, `AuthOk`, one frame per replayed message,
/// `HistoryComplete`, at most one announcement, and the start of forwarding.
pub proof fn law_auth_ok_once_before_history(events: Seq<HandshakeEvent>)
    ensures
        handshake_run(start_progress(), events).1.contains(ActionKind::AuthOk) ==> {
            let ks = handshake_run(start_progress(), events).1;
            &&& ks[0] == ActionKind::Connect
            &&& ks[1] == ActionKind::AuthOk
            &&& forall|i: int| 0 <= i < ks.len() && i != 1 ==> #[trigger] ks[i] != ActionKind::AuthOk
            &&& forall|i: int|
                0 <= i < ks.len() && (#[trigger] ks[i] == ActionKind::HistoryFrame || ks[i] == ActionKind::HistoryComplete
                    || ks[i] == ActionKind::Broadcast) ==> i > 1
        },
        handshake_run(start_progress(), events).0.0 == HandshakeStage::Live ==> exists|n: nat, b: bool|
            handshake_run(start_progress(), events).1 == #[trigger] live_kinds(n, b),
{
    lemma_run_fits(events);
    let r = handshake_run(start_progress(), events);
    if r.1.contains(ActionKind::AuthOk) {
        if r.0.0 == HandshakeStage::Live || r.0.0 == HandshakeStage::Departing || (r.0.0 == HandshakeStage::Closed
            && exists|n: nat, b: bool, d: bool| r.1 == #[trigger] ended_kinds(n, b, d)) {
            lemma_fits_accepted(r.0, r.1);
            let (n, b, rest) = choose|n: nat, b: bool, rest: Seq<ActionKind>|
                (forall|j: int| 0 <= j < rest.len() ==> closing_kind(#[trigger] rest[j])) && r.1 == #[trigger] live_kinds(n, b).add(rest);
            assert forall|i: int| 0 <= i < r.1.len() implies (i != 1 ==> #[trigger] r.1[i] != ActionKind::AuthOk)
                && (i == 0 ==> r.1[i] == ActionKind::Connect) && (i == 1 ==> r.1[i] == ActionKind::AuthOk) by {
                lemma_after_auth(n, b, rest, i);
            }
            lemma_after_auth(n, b, rest, 0);
            lemma_after_auth(n, b, rest, 1);
        }
    }
}

/// Every connection that has closed, on every path, leaves the room's connected
/// members and the forwarding as they were: it unregistered the member as often
/// as it registered it, and stopped forwarding as often as it started.
pub proof fn law_closed_connections_restore_the_count(events: Seq<HandshakeEvent>)
    ensures
        handshake_run(start_progress(), events).0.0 == HandshakeStage::Closed ==> {
            let ks = handshake_run(start_progress(), events).1;
            &&& occurrences(ks, ActionKind::Connect) == occurrences(ks, ActionKind::Disconnect)
            &&& occurrences(ks, ActionKind::StartForwarding) == occurrences(ks, ActionKind::StopForwarding)
        },
{
    lemma_run_fits(events);
    let r = handshake_run(start_progress(), events);
    let ks = r.1;
    if r.0.0 == HandshakeStage::Closed {
        let tail = seq![ActionKind::StopForwarding, ActionKind::Disconnect];
        if exists|n: nat, b: bool, d: bool| ks == #[trigger] ended_kinds(n, b, d) {
            let (n, b, d) = choose|n: nat, b: bool, d: bool| ks == #[trigger] ended_kinds(n, b, d);
            let head = seq![ActionKind::Connect, ActionKind::AuthOk];
            let rp = replay_kinds(n, b);
            let dk = departure_kinds(d);
            assert(ks =~= head + rp + tail + dk);
            assert(live_kinds(n, b) + tail + dk == ks);
            assert forall|k: ActionKind| #![auto] occurrences(ks, k) == occurrences(head, k) + occurrences(rp, k)
                + occurrences(tail, k) + occurrences(dk, k) by {
                lemma_occurrences_append(head + rp + tail, dk, k);
                lemma_occurrences_append(head + rp, tail, k);
                lemma_occurrences_append(head, rp, k);
            }
            lemma_replay_lacks(n, b, ActionKind::Connect);
            lemma_replay_lacks(n, b, ActionKind::Disconnect);
            lemma_replay_lacks(n, b, ActionKind::StopForwarding);
            lemma_replay_starts_once(n, b);
            reveal_with_fuel(occurrences, 3);
        } else {
            reveal_with_fuel(occurrences, 5);
        }
    }
}

} // verus!
