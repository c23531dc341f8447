use chat_room::handshake::{
    handshake_start, handshake_step, FirstFrame, Handshake, HandshakeEvent, HandshakeStage,
    HistoryFailure, SocketAction,
};
use chat_room::interop::Timestamp;
use chat_room::messages::StoredMessage;
use chat_room::realtime::{ChatMessage, RoomMember};

fn run(events: Vec<HandshakeEvent>) -> (Handshake, Vec<SocketAction>) {
    let mut state = handshake_start();
    let mut all = Vec::new();
    for e in events {
        let (next, actions) = handshake_step(state, e);
        state = next;
        all.extend(actions);
    }
    (state, all)
}

fn room(policy: &str) -> HandshakeEvent {
    HandshakeEvent::RoomFound(Some(("Lab".into(), policy.into())))
}

fn member(id: u128) -> RoomMember {
    RoomMember { user_id: id, username: "ada".into(), avatar_emoji: String::new() }
}

fn message(id: u128) -> StoredMessage {
    StoredMessage {
        id,
        client_message_id: None,
        room_id: 7,
        sender_id: Some(1),
        sender: "ada".into(),
        sender_avatar: "*".into(),
        content: "hello".into(),
        attachment: None,
        reply_to: None,
        recalled_at: None,
        edited_at: None,
        created_at: Timestamp { secs: id as i64, nanos: 0 },
        forwarded_from: None,
        reactions: Vec::new(),
    }
}

fn reason(actions: &[SocketAction]) -> Vec<String> {
    actions
        .iter()
        .map(|a| match a {
            SocketAction::Send(ChatMessage::AuthFail { reason }) => reason.clone(),
            SocketAction::Send(ChatMessage::AuthOk { .. }) => "auth ok".into(),
            SocketAction::Send(ChatMessage::Broadcast { message_id, .. }) => format!("message {message_id}"),
            SocketAction::Send(ChatMessage::HistoryComplete) => "history complete".into(),
            SocketAction::Send(ChatMessage::System { content, .. }) => format!("notice {content}"),
            SocketAction::Send(_) => "other".into(),
            SocketAction::Connect => "connect".into(),
            SocketAction::Disconnect => "disconnect".into(),
            SocketAction::Broadcast(ChatMessage::System { content, .. }) => format!("broadcast {content}"),
            SocketAction::Broadcast(ChatMessage::Presence { .. }) => "broadcast presence".into(),
            SocketAction::Broadcast(ChatMessage::Typing { user_id, .. }) => format!("broadcast typing {user_id:?}"),
            SocketAction::Broadcast(_) => "broadcast".into(),
            SocketAction::StartForwarding => "start forwarding".into(),
            SocketAction::StopForwarding => "stop forwarding".into(),
        })
        .collect()
}

#[test]
fn refused_connections_get_one_refusal() {
    let (s, a) = run(vec![HandshakeEvent::RoomFound(None)]);
    assert_eq!((s.stage, reason(&a)), (HandshakeStage::Closed, vec!["room not found".to_string()]));
    let (_, a) = run(vec![room("open"), HandshakeEvent::FirstFrame(FirstFrame::InvalidJson)]);
    assert_eq!(reason(&a), vec!["invalid json"]);
    let (_, a) = run(vec![room("open"), HandshakeEvent::FirstFrame(FirstFrame::Timeout)]);
    assert_eq!(reason(&a), vec!["authentication timeout"]);
    let (s, a) = run(vec![room("open"), HandshakeEvent::FirstFrame(FirstFrame::NotText)]);
    assert_eq!((s.stage, a.len()), (HandshakeStage::Closed, 0));
    let (_, a) = run(vec![
        room("approval"),
        HandshakeEvent::FirstFrame(FirstFrame::Parsed),
        HandshakeEvent::Authenticated(Ok((1, "ada".into()))),
        HandshakeEvent::LockRead(Ok(None)),
        HandshakeEvent::MembershipRead(Ok(Some("pending".into()))),
    ]);
    assert_eq!(reason(&a), vec!["membership pending"]);
    let (_, a) = run(vec![
        room("approval"),
        HandshakeEvent::FirstFrame(FirstFrame::Parsed),
        HandshakeEvent::Authenticated(Ok((1, "ada".into()))),
        HandshakeEvent::LockRead(Ok(Some("chat is locked".into()))),
    ]);
    assert_eq!(reason(&a), vec!["chat is locked"]);
    let (_, a) = run(vec![
        room("approval"),
        HandshakeEvent::FirstFrame(FirstFrame::Parsed),
        HandshakeEvent::Authenticated(Ok((1, "ada".into()))),
        HandshakeEvent::LockRead(Ok(None)),
        HandshakeEvent::MembershipRead(Ok(Some("active".into()))),
        HandshakeEvent::Connected(vec![member(1)], true),
        HandshakeEvent::ParticipantsRead(Err(())),
    ]);
    assert_eq!(reason(&a), vec!["connect", "disconnect", "authentication unavailable"]);
}

#[test]
fn accepted_connections_get_auth_ok_then_history() {
    let (s, a) = run(vec![
        room("open"),
        HandshakeEvent::FirstFrame(FirstFrame::Parsed),
        HandshakeEvent::Authenticated(Ok((1, "ada".into()))),
        HandshakeEvent::LockRead(Ok(None)),
        HandshakeEvent::MembershipRead(Ok(None)),
        HandshakeEvent::Activated(true),
        HandshakeEvent::Connected(vec![member(1)], true),
        HandshakeEvent::ParticipantsRead(Ok(vec![member(1)])),
        HandshakeEvent::RosterRead(None, Vec::new()),
        HandshakeEvent::HistoryRead(Ok(vec![message(3), message(4)])),
    ]);
    assert_eq!(s.stage, HandshakeStage::Live);
    assert_eq!(
        reason(&a),
        vec![
            "connect",
            "auth ok",
            "message 3",
            "message 4",
            "history complete",
            "broadcast ada joined the room",
            "start forwarding"
        ]
    );
    assert_eq!((s.room_name.as_str(), s.user_id, s.username.as_str()), ("Lab", 1, "ada"));
    assert_eq!((s.members.len(), s.participants.len()), (1, 1));
    let (s, ended) = handshake_step(s, HandshakeEvent::StreamEnded);
    assert_eq!((s.stage, reason(&ended)), (HandshakeStage::Departing, vec!["stop forwarding".to_string(), "disconnect".to_string()]));
    let (s, departed) = handshake_step(s, HandshakeEvent::Departed(vec![], true, vec![member(1)]));
    assert_eq!(
        (s.stage, reason(&departed)),
        (HandshakeStage::Closed, vec!["broadcast typing Some(1)".to_string(), "broadcast presence".to_string()])
    );
    let (_, quiet) = handshake_step(
        Handshake { stage: HandshakeStage::Departing, ..handshake_start() },
        HandshakeEvent::Departed(vec![member(1)], false, vec![]),
    );
    assert!(quiet.is_empty());
    assert!(matches!(&a[1], SocketAction::Send(ChatMessage::AuthOk { room_name, members, .. })
        if room_name == "Lab" && members.len() == 1));
    let (_, a) = run(vec![
        room("approval"),
        HandshakeEvent::FirstFrame(FirstFrame::Parsed),
        HandshakeEvent::Authenticated(Ok((1, "ada".into()))),
        HandshakeEvent::LockRead(Ok(None)),
        HandshakeEvent::MembershipRead(Ok(Some("active".into()))),
        HandshakeEvent::Connected(vec![member(1)], false),
        HandshakeEvent::ParticipantsRead(Ok(vec![])),
        HandshakeEvent::RosterRead(Some("Bob".into()), Vec::new()),
        HandshakeEvent::HistoryRead(Err(HistoryFailure::Unavailable)),
    ]);
    assert_eq!(
        reason(&a),
        vec!["connect", "auth ok", "notice message history is temporarily unavailable", "disconnect"]
    );
}
