use chat_room::history::{gather_pins, pinned_result, store_read_cursor};
use chat_room::socket::{
    auth_fail, auth_ok, client_action, edited_notice, history_frames, locked_auth_frame,
    locked_heartbeat_frame, polled_edit_frames, polled_message_frames, polled_recall_frames,
    reaction_notice, read_notice, recalled_notice, typing_frame, AuthFailure, ClientAction,
    EditCursor, RecallCursor,
};
use chat_room::interop::Timestamp;
use chat_room::messages::{MessageCursor, StoredMessage};
use chat_room::realtime::{
    advance_message_cursor, connection_announcement, departure_frames, extract_mentions,
    forward_room_event, poke_broadcast, poke_notice, poke_target_allowed, poll_database_updates,
    publish_membership_joined, store_failure_notice, stored_message_follow_up,
    stored_message_to_chat, ChatMessage, ForwarderStep, RoomEvent, RoomMember,
};

fn member(id: u128, name: &str) -> RoomMember {
    RoomMember { user_id: id, username: name.into(), avatar_emoji: String::new() }
}

#[test]
fn mentions_need_a_word_boundary_and_skip_the_sender() {
    let roster = vec![member(1, "bob"), member(2, "bobby"), member(3, "ada"), member(4, "")];
    assert_eq!(extract_mentions("hi @bob and @ada", &roster, 3), vec![1]);
    assert_eq!(extract_mentions("@bobby!", &roster, 9), vec![2]);
    assert_eq!(extract_mentions("@bob_x @bob.", &roster, 9), vec![1]);
    assert_eq!(extract_mentions("@", &roster, 9), Vec::<u128>::new());
    assert_eq!(extract_mentions("@ada @bob", &roster, 9), vec![1, 3]);
}

fn message(id: u128, secs: i64) -> StoredMessage {
    StoredMessage {
        id,
        client_message_id: None,
        room_id: 7,
        sender_id: Some(1),
        sender: "ada".into(),
        sender_avatar: "*".into(),
        content: "hello".into(),
        attachment: None,
        reply_to: None,
        recalled_at: None,
        edited_at: None,
        created_at: Timestamp { secs, nanos: 0 },
        forwarded_from: None,
        reactions: Vec::new(),
    }
}

#[test]
fn broadcasts_carry_the_stored_message() {
    let frame = stored_message_to_chat(message(5, 100));
    assert!(matches!(
        frame,
        ChatMessage::Broadcast { message_id: 5, ref sender, ref content, timestamp, .. }
            if sender == "ada" && content == "hello" && timestamp.secs == 100
    ));
}

#[test]
fn the_delivery_cursor_only_moves_forward() {
    let mut cursor = None;
    advance_message_cursor(&mut cursor, &stored_message_to_chat(message(5, 100)));
    assert_eq!(cursor, Some(MessageCursor { created_at: Timestamp { secs: 100, nanos: 0 }, id: 5 }));
    advance_message_cursor(&mut cursor, &stored_message_to_chat(message(9, 50)));
    assert_eq!(cursor.unwrap().id, 5);
    advance_message_cursor(&mut cursor, &stored_message_to_chat(message(6, 100)));
    assert_eq!(cursor.unwrap().id, 6);
    advance_message_cursor(&mut cursor, &ChatMessage::HistoryComplete);
    assert_eq!(cursor.unwrap().id, 6);
}

#[test]
fn connection_frames() {
    let joined = publish_membership_joined("ada", vec![member(1, "ada")], vec![]);
    assert!(matches!(joined, ChatMessage::System { ref content, members: Some(ref m), .. } if content == "ada joined the room" && m.len() == 1));
    assert!(matches!(connection_announcement(true, false, "ada", vec![], vec![]), Some(ChatMessage::System { .. })));
    assert!(matches!(connection_announcement(false, true, "ada", vec![], vec![]), Some(ChatMessage::Presence { .. })));
    assert!(connection_announcement(false, false, "ada", vec![], vec![]).is_none());
    let frames = departure_frames(true, 4, "ada", vec![], vec![]);
    assert_eq!(frames.len(), 2);
    assert!(matches!(&frames[0], ChatMessage::Typing { content, user_id: Some(4), username: Some(n) } if content.is_empty() && n == "ada"));
    assert!(matches!(&frames[1], ChatMessage::Presence { .. }));
    assert!(departure_frames(false, 4, "ada", vec![], vec![]).is_empty());
    assert!(matches!(store_failure_notice("ada"), ChatMessage::System { ref content, members: None, participants: None } if content == "message from ada was not saved or broadcast"));
}

#[test]
fn follow_ups_and_pokes() {
    let f = stored_message_follow_up(true, 2);
    assert!(f.record_mentions && !f.replay);
    let f = stored_message_follow_up(false, 2);
    assert!(!f.record_mentions && f.replay);
    assert!(!stored_message_follow_up(true, 0).record_mentions);
    let connected = vec![member(1, "ada"), member(2, "bob")];
    assert!(poke_target_allowed(1, 2, &connected));
    assert!(!poke_target_allowed(1, 1, &connected));
    assert!(!poke_target_allowed(1, 3, &connected));
    assert!(matches!(poke_notice(1, 2), ChatMessage::System { ref content, .. } if content == "poke:00000000-0000-0000-0000-000000000001:00000000-0000-0000-0000-000000000002"));
}

#[test]
fn forwarder_steps() {
    assert!(matches!(forward_room_event(&RoomEvent::Message(ChatMessage::HistoryComplete), 1), ForwarderStep::Deliver));
    assert!(matches!(forward_room_event(&RoomEvent::Disconnect { reason: "room deleted".into() }, 1), ForwarderStep::Close(r) if r == "room deleted"));
    assert!(matches!(forward_room_event(&RoomEvent::DisconnectUser { user_id: 1, reason: "bye".into() }, 1), ForwarderStep::Close(r) if r == "bye"));
    assert!(matches!(forward_room_event(&RoomEvent::DisconnectUser { user_id: 2, reason: "bye".into() }, 1), ForwarderStep::Skip));
    assert_eq!(poll_database_updates(Some(false), Some(false)), Some("session revoked"));
    assert_eq!(poll_database_updates(Some(true), Some(false)), Some("membership left"));
    assert_eq!(poll_database_updates(None, None), None);
    assert_eq!(poll_database_updates(Some(true), Some(true)), None);
}

fn at(secs: i64) -> Timestamp {
    Timestamp { secs, nanos: 0 }
}

#[test]
fn connections_open_with_the_viewers_room_name_and_the_history() {
    assert!(matches!(auth_fail(AuthFailure::RoomNotFound), ChatMessage::AuthFail { reason } if reason == "room not found"));
    assert!(matches!(auth_fail(AuthFailure::Timeout), ChatMessage::AuthFail { reason } if reason == "authentication timeout"));
    assert!(matches!(auth_ok("Lab", None, vec![], vec![], vec![]), ChatMessage::AuthOk { room_name, .. } if room_name == "Lab"));
    assert!(matches!(auth_ok("Lab", Some("Grace".into()), vec![], vec![], vec![]), ChatMessage::AuthOk { room_name, .. } if room_name == "Grace"));
    let frames = history_frames(vec![message(1, 10), message(2, 20)]);
    assert_eq!(frames.len(), 3);
    assert!(matches!(frames[0], ChatMessage::Broadcast { message_id: 1, .. }));
    assert!(matches!(frames[1], ChatMessage::Broadcast { message_id: 2, .. }));
    assert!(matches!(frames[2], ChatMessage::HistoryComplete));
    assert!(matches!(history_frames(vec![]).as_slice(), [ChatMessage::HistoryComplete]));
}

#[test]
fn client_frames_become_actions_for_members_who_may_post() {
    let frame = || ChatMessage::Message { content: "hi".into(), reply_to: Some(3), client_message_id: None };
    assert!(matches!(client_action(false, frame()), ClientAction::Ignore));
    assert!(matches!(client_action(true, frame()), ClientAction::StoreMessage { content, reply_to: Some(3), client_message_id: None } if content == "hi"));
    assert!(matches!(client_action(true, ChatMessage::Read { message_id: 4 }), ClientAction::MarkRead { message_id: 4 }));
    assert!(matches!(client_action(true, ChatMessage::Recall { message_id: 4 }), ClientAction::RecallMessage { message_id: 4 }));
    assert!(matches!(client_action(true, ChatMessage::Poke { target_user_id: 2 }), ClientAction::Poke { target_user_id: 2 }));
    assert!(matches!(client_action(true, ChatMessage::HistoryComplete), ClientAction::Ignore));
    assert!(matches!(
        client_action(true, ChatMessage::Reaction { message_id: 1, emoji: "👍".into(), active: true }),
        ClientAction::SetReaction { message_id: 1, emoji, active: true } if emoji == "👍"
    ));
}

#[test]
fn outcomes_are_broadcast_only_when_applied() {
    assert!(matches!(typing_frame(String::new(), 1, "ada"), ChatMessage::Typing { user_id: Some(1), .. }));
    assert!(matches!(edited_notice(1, "new".into(), Some(at(5))), Some(ChatMessage::MessageEdited { message_id: 1, content, .. }) if content == "new"));
    assert!(edited_notice(1, "new".into(), None).is_none());
    assert!(matches!(recalled_notice(1, Some(at(5))), Some(ChatMessage::MessageRecalled { message_id: 1, .. })));
    assert!(recalled_notice(1, None).is_none());
    assert!(matches!(read_notice(1, "ada", 9, true), Some(ChatMessage::ReadReceipt { message_id: 9, .. })));
    assert!(read_notice(1, "ada", 9, false).is_none());
    assert!(matches!(reaction_notice(1, "👍".into(), 2, false, true), Some(ChatMessage::ReactionChanged { active: false, .. })));
    assert!(reaction_notice(1, "👍".into(), 2, false, false).is_none());
}

#[test]
fn polling_moves_each_cursor_to_the_last_item() {
    let mut cursor = Some(MessageCursor { created_at: at(1), id: 1 });
    let frames = polled_message_frames(vec![message(5, 10), message(6, 11)], &mut cursor);
    assert_eq!(frames.len(), 2);
    assert_eq!(cursor, Some(MessageCursor { created_at: at(11), id: 6 }));
    let frames = polled_message_frames(vec![], &mut cursor);
    assert!(frames.is_empty());
    assert_eq!(cursor.unwrap().id, 6);
    let mut recall = None;
    let frames = polled_recall_frames(vec![RecallCursor { recalled_at: at(3), id: 8 }], &mut recall);
    assert!(matches!(frames[0], ChatMessage::MessageRecalled { message_id: 8, .. }));
    assert_eq!(recall, Some(RecallCursor { recalled_at: at(3), id: 8 }));
    let mut edit = None;
    let frames = polled_edit_frames(vec![EditCursor { edited_at: at(4), id: 9, content: "x".into() }], &mut edit);
    assert!(matches!(&frames[0], ChatMessage::MessageEdited { message_id: 9, content, .. } if content == "x"));
    assert_eq!(edit.unwrap().id, 9);
}

#[test]
fn read_positions_only_move_forward() {
    let p = |secs: i64, id: u128| Some(MessageCursor { created_at: at(secs), id });
    assert_eq!(store_read_cursor(None, p(5, 1)), (p(5, 1), true));
    assert_eq!(store_read_cursor(p(5, 1), p(6, 0)), (p(6, 0), true));
    assert_eq!(store_read_cursor(p(5, 1), p(5, 2)), (p(5, 2), true));
    assert_eq!(store_read_cursor(p(5, 2), p(5, 1)), (p(5, 2), false));
    assert_eq!(store_read_cursor(p(5, 2), p(5, 2)), (p(5, 2), false));
    assert_eq!(store_read_cursor(p(5, 2), None), (p(5, 2), false));
}

#[test]
fn a_locked_chat_refuses_and_closes_connections() {
    assert!(locked_auth_frame(Ok(None)).is_none());
    assert!(matches!(locked_auth_frame(Ok(Some("maintenance".into()))), Some(ChatMessage::AuthFail { reason }) if reason == "maintenance"));
    assert!(matches!(locked_auth_frame(Err(())), Some(ChatMessage::AuthFail { reason }) if reason == "authentication unavailable"));
    assert!(matches!(locked_heartbeat_frame(Ok(Some("maintenance".into()))), Some(ChatMessage::System { content, .. }) if content == "maintenance"));
    assert!(locked_heartbeat_frame(Err(())).is_none());
    assert!(locked_heartbeat_frame(Ok(None)).is_none());
}

#[test]
fn pins_skip_messages_the_viewer_cannot_see() {
    let t = |secs| Timestamp { secs, nanos: 0 };
    let rows = vec![(5, 1, t(30)), (6, 2, t(20)), (7, 3, t(10))];
    let found = vec![Some(message(5, 1)), None, Some(message(7, 3))];
    let pins = gather_pins(rows, found);
    assert_eq!(pins.len(), 2);
    assert_eq!((pins[0].message.id, pins[0].pinned_by, pins[0].pinned_at.secs), (5, 1, 30));
    assert_eq!((pins[1].message.id, pins[1].pinned_by, pins[1].pinned_at.secs), (7, 3, 10));
    assert!(gather_pins(Vec::new(), Vec::new()).is_empty());
}

#[test]
fn a_pin_answers_only_when_it_was_stored_and_is_visible() {
    let at = Timestamp { secs: 40, nanos: 0 };
    let pin = pinned_result(true, Some(message(5, 1)), 9, at).unwrap();
    assert_eq!((pin.message.id, pin.pinned_by, pin.pinned_at), (5, 9, at));
    assert!(pinned_result(false, Some(message(5, 1)), 9, at).is_none());
    assert!(pinned_result(true, None, 9, at).is_none());
}

#[test]
fn a_poke_needs_a_connected_other_member_and_a_passed_cooldown() {
    let connected = vec![member(1, "ada"), member(2, "bob")];
    let c = poke_broadcast(1, 2, &connected, true).unwrap();
    assert!(matches!(c, ChatMessage::System { ref content, members: None, participants: None }
        if content == "poke:00000000-0000-0000-0000-000000000001:00000000-0000-0000-0000-000000000002"));
    assert!(poke_broadcast(1, 2, &connected, false).is_none());
    assert!(poke_broadcast(1, 1, &connected, true).is_none());
    assert!(poke_broadcast(1, 3, &connected, true).is_none());
}
