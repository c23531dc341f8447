use chat_room::forwarding::{
    forward_batch, PairAnswer, SourceAnswer, copy_outcome, forward_result, pair_outcome, skipped_for_targets, source_check, ForwardOutcome,
    ForwardSkip,
};
use chat_room::interop::Timestamp;
use chat_room::messages::{
    apply_edit, apply_recall, message_write, MessageWrite, attachment_download_url, into_message, new_attachment_message,
    new_text_message, reply_preview, MessageRow, NewAttachment, ReplySource,
};
use chat_room::reactions::{attach_message_reactions, reaction_allowed, reactions_for, ReactionRow};

const AT: Timestamp = Timestamp { secs: 1_787_652_000, nanos: 0 };
const LATER: Timestamp = Timestamp { secs: 1_787_652_060, nanos: 5 };

fn row(id: u128) -> MessageRow {
    MessageRow {
        id,
        client_message_id: Some(77),
        room_id: 7,
        sender_id: Some(1),
        sender: "ada".into(),
        sender_avatar: "*".into(),
        content: "hello".into(),
        recalled_at: None,
        edited_at: None,
        created_at: AT,
        attachment_id: Some(3),
        attachment_access_key: Some(4),
        attachment_file_name: Some("a.txt".into()),
        attachment_mime_type: Some("text/plain".into()),
        attachment_size_bytes: Some(12),
        attachment_is_sensitive: None,
        reply_message_id: Some(9),
        reply_sender: Some("bob".into()),
        reply_content: Some("question".into()),
        reply_recalled_at: None,
        reply_attachment_file_name: Some("q.png".into()),
        forwarded_from_sender: Some("eve".into()),
        forwarded_from_room_name: None,
    }
}

#[test]
fn download_urls_name_the_attachment_and_its_key() {
    assert_eq!(
        attachment_download_url(1, 2),
        "/api/attachments/00000000-0000-0000-0000-000000000001?key=00000000-0000-0000-0000-000000000002"
    );
}

#[test]
fn rows_become_messages() {
    let m = into_message(row(5), Some(2));
    assert_eq!((m.id, m.client_message_id, m.room_id), (5, Some(77), 7));
    assert_eq!(m.content, "hello");
    let a = m.attachment.unwrap();
    assert_eq!((a.id, a.file_name.as_str(), a.size_bytes, a.is_sensitive), (3, "a.txt", 12, false));
    assert_eq!(a.download_url, attachment_download_url(3, 4));
    let r = m.reply_to.unwrap();
    assert_eq!((r.message_id, r.content.as_str(), r.attachment_file_name.as_deref()), (9, "question", Some("q.png")));
    assert!(m.forwarded_from.is_none());
    assert!(m.reactions.is_empty());
}

#[test]
fn a_recalled_message_is_blank_for_everyone_but_its_sender() {
    let mut recalled = row(5);
    recalled.recalled_at = Some(AT);
    let other = into_message(recalled, Some(2));
    assert_eq!(other.content, "");
    assert!(other.attachment.is_none());
    let mut recalled = row(5);
    recalled.recalled_at = Some(AT);
    let own = into_message(recalled, Some(1));
    assert_eq!(own.content, "hello");
    assert!(own.attachment.is_some());
    let mut reply_gone = row(5);
    reply_gone.reply_recalled_at = Some(AT);
    let m = into_message(reply_gone, None);
    let r = m.reply_to.unwrap();
    assert!(r.recalled);
    assert_eq!(r.content, "");
    assert_eq!(r.attachment_file_name, None);
}

#[test]
fn edits_and_recalls_belong_to_the_sender() {
    assert!(apply_edit(row(5), 7, 2, "x", LATER).is_err());
    assert!(apply_edit(row(5), 8, 1, "x", LATER).is_err());
    let mut recalled = row(5);
    recalled.recalled_at = Some(AT);
    let edited = apply_edit(recalled, 7, 1, "fixed", LATER).ok().unwrap();
    assert_eq!(edited.content, "fixed");
    assert_eq!(edited.edited_at, Some(LATER));
    assert_eq!(edited.recalled_at, None);
    assert_eq!(into_message(edited, Some(2)).content, "fixed");
    let recalled = apply_recall(row(5), 7, 1, LATER).ok().unwrap();
    assert_eq!(recalled.recalled_at, Some(LATER));
    assert_eq!(recalled.content, "hello");
    assert!(apply_recall(recalled, 7, 1, LATER).is_err());
    assert!(apply_recall(row(5), 7, 2, LATER).is_err());
}

#[test]
fn reply_previews_of_recalled_messages_keep_only_identity() {
    let source = |recalled: Option<Timestamp>| ReplySource {
        message_id: 9,
        sender: "bob".into(),
        content: "question".into(),
        attachment_file_name: Some("q.png".into()),
        recalled_at: recalled,
    };
    let p = reply_preview(Some(source(None))).unwrap();
    assert_eq!((p.content.as_str(), p.recalled), ("question", false));
    let p = reply_preview(Some(source(Some(AT)))).unwrap();
    assert_eq!((p.content.as_str(), p.recalled, p.attachment_file_name), ("", true, None));
    assert_eq!(p.sender, "bob");
    assert!(reply_preview(None).is_none());
}

#[test]
fn new_messages_as_their_sender_sees_them() {
    let m = new_text_message(1, Some(2), 3, 4, "ada", "*", "hi", None, AT);
    assert_eq!((m.id, m.client_message_id, m.room_id, m.sender_id), (1, Some(2), 3, Some(4)));
    assert_eq!((m.sender.as_str(), m.content.as_str()), ("ada", "hi"));
    assert!(m.attachment.is_none() && m.recalled_at.is_none() && m.edited_at.is_none());
    let upload = NewAttachment { file_name: "a.png".into(), mime_type: "image/png".into(), is_sensitive: true };
    let m = new_attachment_message(1, 5, 6, 3, 4, "ada", "*", upload, 99, "", None, AT);
    let a = m.attachment.unwrap();
    assert_eq!((a.id, a.size_bytes, a.is_sensitive), (5, 99, true));
    assert_eq!(a.download_url, attachment_download_url(5, 6));
    assert_eq!(m.client_message_id, None);
}

#[test]
fn forward_results_report_each_pair() {
    assert_eq!(source_check(None, true), Some(ForwardSkip::MessageNotFound));
    assert_eq!(source_check(Some(1), false), Some(ForwardSkip::NotSourceMember));
    assert_eq!(source_check(Some(1), true), None);
    assert_eq!(pair_outcome(false, true, Ok(Some(5))), ForwardOutcome::Skipped(ForwardSkip::CannotSendToTarget));
    assert_eq!(pair_outcome(true, false, Ok(Some(5))), ForwardOutcome::Skipped(ForwardSkip::ServerBusy));
    assert_eq!(pair_outcome(true, true, Ok(Some(5))), ForwardOutcome::Forwarded(5));
    assert_eq!(copy_outcome(Ok(None)), ForwardOutcome::Skipped(ForwardSkip::MessageRecalled));
    assert_eq!(copy_outcome(Err(())), ForwardOutcome::Skipped(ForwardSkip::ForwardFailed));
    let r = forward_result(1, 2, ForwardOutcome::Forwarded(3));
    assert_eq!((r.message_id, r.target_room_id, r.forwarded_message_id, r.skipped_reason), (1, 2, Some(3), None));
    let r = forward_result(1, 2, ForwardOutcome::Skipped(ForwardSkip::ServerBusy));
    assert_eq!(r.skipped_reason.as_deref(), Some("server busy; retry this forward"));
    let all = skipped_for_targets(1, &vec![10, 11, 12], ForwardSkip::MessageNotFound);
    assert_eq!(all.iter().map(|r| r.target_room_id).collect::<Vec<_>>(), vec![10, 11, 12]);
    assert!(all.iter().all(|r| r.skipped_reason.as_deref() == Some("message not found") && r.forwarded_message_id.is_none()));
    assert_eq!(ForwardSkip::NotSourceMember.reason(), "not a member of the source room");
    assert_eq!(ForwardSkip::CannotSendToTarget.reason(), "cannot send to the target room");
}

#[test]
fn only_the_offered_reactions_are_accepted() {
    for emoji in ["👍", "❤️", "😂", "😮", "😢", "👏"] {
        assert!(reaction_allowed(emoji), "{emoji}");
    }
    assert!(!reaction_allowed("❤"));
    assert!(!reaction_allowed("🔥"));
    assert!(!reaction_allowed(""));
}

fn reaction(message_id: u128, emoji: &str, user_id: u128) -> ReactionRow {
    ReactionRow { message_id, emoji: emoji.into(), user_id }
}

#[test]
fn reactions_are_grouped_by_emoji_in_order() {
    let rows = vec![
        reaction(1, "👍", 10),
        reaction(2, "👍", 11),
        reaction(1, "❤️", 12),
        reaction(1, "👍", 13),
    ];
    let groups = reactions_for(&rows, 1);
    assert_eq!(groups.len(), 2);
    assert_eq!((groups[0].emoji.as_str(), groups[0].user_ids.clone()), ("👍", vec![10, 13]));
    assert_eq!((groups[1].emoji.as_str(), groups[1].user_ids.clone()), ("❤️", vec![12]));
    let messages = vec![
        into_message(row(1), None),
        into_message(row(2), None),
        into_message(row(1), None),
        into_message(row(3), None),
    ];
    let with = attach_message_reactions(messages, &rows);
    assert_eq!(with[0].reactions.len(), 2);
    assert_eq!(with[1].reactions.len(), 1);
    assert_eq!(with[1].reactions[0].user_ids, vec![11]);
    assert!(with[2].reactions.is_empty());
    assert!(with[3].reactions.is_empty());
    assert_eq!(with[0].content, "hello");
}

#[test]
fn a_batch_reports_every_pair_in_request_order() {
    let messages = vec![10, 11, 12];
    let targets = vec![20, 21];
    let sources = vec![
        SourceAnswer { room_id: Some(1), may_send: true },
        SourceAnswer { room_id: None, may_send: false },
        SourceAnswer { room_id: Some(1), may_send: false },
    ];
    let ok = |id| PairAnswer { can_send: true, got_permit: true, copied: Ok(Some(id)) };
    let unused = PairAnswer { can_send: false, got_permit: false, copied: Err(()) };
    let pairs = vec![
        ok(100),
        PairAnswer { can_send: false, got_permit: true, copied: Ok(Some(101)) },
        unused,
        unused,
        unused,
        unused,
    ];
    let r = forward_batch(&messages, &targets, &sources, &pairs);
    assert_eq!(r.len(), 6);
    let seen: Vec<(u128, u128)> = r.iter().map(|x| (x.message_id, x.target_room_id)).collect();
    assert_eq!(seen, vec![(10, 20), (10, 21), (11, 20), (11, 21), (12, 20), (12, 21)]);
    assert_eq!((r[0].forwarded_message_id, r[0].skipped_reason.as_deref()), (Some(100), None));
    assert_eq!(r[1].skipped_reason.as_deref(), Some("cannot send to the target room"));
    assert_eq!(r[2].skipped_reason.as_deref(), Some("message not found"));
    assert_eq!(r[3].skipped_reason.as_deref(), Some("message not found"));
    assert_eq!(r[4].skipped_reason.as_deref(), Some("not a member of the source room"));
    assert_eq!(r[5].forwarded_message_id, None);
    assert!(forward_batch(&vec![], &targets, &vec![], &vec![]).is_empty());
}

#[test]
fn a_client_message_id_is_stored_once() {
    assert_eq!(message_write(Some(1), false, true), MessageWrite::Inserted);
    assert_eq!(message_write(Some(1), true, true), MessageWrite::Existing);
    assert_eq!(message_write(Some(1), true, false), MessageWrite::Existing);
    assert_eq!(message_write(Some(1), false, false), MessageWrite::Refused);
    assert_eq!(message_write(None, true, true), MessageWrite::Inserted);
    assert_eq!(message_write(None, false, false), MessageWrite::Refused);
}
