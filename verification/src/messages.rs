//! Message search patterns, history paging and per-viewer message projection.
use vstd::prelude::*;
use crate::http::Status;
use crate::interop::{instant_before, is_before, Timestamp, uuid_string, uuid_text};
use crate::text::{copy_str, push_char, str_eq, to_chars, trim, trim_str};

verus! {

broadcast use vstd::string::group_string_axioms;

/// How one character of searched text is written inside a SQL `LIKE` pattern
/// that uses `\` as its escape character.
pub open spec fn escape_like_char(c: char) -> Seq<char> {
    if c == '\\' || c == '%' || c == '_' {
        seq!['\\', c]
    } else {
        seq![c]
    }
}

/// `s` with every `\`, `%` and `_` escaped by a backslash.
pub open spec fn escape_like(s: Seq<char>) -> Seq<char>
    decreases s.len(),
{
    if s.len() == 0 {
        Seq::empty()
    } else {
        escape_like(s.drop_last()) + escape_like_char(s.last())
    }
}

/// The `LIKE` pattern that matches any text containing `s` literally.
pub open spec fn like_pattern_text(s: Seq<char>) -> Seq<char> {
    seq!['%'] + escape_like(s) + seq!['%']
}

/// Reads an escaped `LIKE` body back: a backslash stands for the character after it.
pub open spec fn unescape_like(e: Seq<char>) -> Seq<char>
    decreases e.len(),
{
    if e.len() == 0 {
        Seq::empty()
    } else if e[0] == '\\' && e.len() >= 2 {
        seq![e[1]] + unescape_like(e.subrange(2, e.len() as int))
    } else {
        seq![e[0]] + unescape_like(e.subrange(1, e.len() as int))
    }
}

/// Whether `e` holds a wildcard (`%` or `_`) that no backslash escapes.
pub open spec fn has_bare_wildcard(e: Seq<char>) -> bool
    decreases e.len(),
{
    if e.len() == 0 {
        false
    } else if e[0] == '\\' && e.len() >= 2 {
        has_bare_wildcard(e.subrange(2, e.len() as int))
    } else {
        e[0] == '%' || e[0] == '_' || has_bare_wildcard(e.subrange(1, e.len() as int))
    }
}

proof fn lemma_escape_like_push(s: Seq<char>, c: char)
    ensures
        escape_like(s.push(c)) == escape_like(s) + escape_like_char(c),
{
    assert(s.push(c).drop_last() =~= s);
}

proof fn lemma_unescape_append(a: Seq<char>, b: Seq<char>)
    requires
        !has_trailing_lone_escape(a),
    ensures
        unescape_like(a + b) == unescape_like(a) + unescape_like(b),
        has_bare_wildcard(a + b) == (has_bare_wildcard(a) || has_bare_wildcard(b)),
    decreases a.len(),
{
    if a.len() == 0 {
        assert(a + b =~= b);
    } else if a[0] == '\\' && a.len() >= 2 {
        let rest = a.subrange(2, a.len() as int);
        assert((a + b).subrange(2, (a + b).len() as int) =~= rest + b);
        lemma_no_lone_escape_rest(a);
        lemma_unescape_append(rest, b);
        assert(seq![a[1]] + (unescape_like(rest) + unescape_like(b)) =~= seq![a[1]]
            + unescape_like(rest) + unescape_like(b));
    } else {
        let rest = a.subrange(1, a.len() as int);
        assert((a + b).subrange(1, (a + b).len() as int) =~= rest + b);
        lemma_no_lone_escape_rest(a);
        lemma_unescape_append(rest, b);
        assert(seq![a[0]] + (unescape_like(rest) + unescape_like(b)) =~= seq![a[0]]
            + unescape_like(rest) + unescape_like(b));
    }
}

/// Whether `e` ends in a backslash that escapes nothing.
pub open spec fn has_trailing_lone_escape(e: Seq<char>) -> bool
    decreases e.len(),
{
    if e.len() == 0 {
        false
    } else if e[0] == '\\' && e.len() >= 2 {
        has_trailing_lone_escape(e.subrange(2, e.len() as int))
    } else if e[0] == '\\' {
        true
    } else {
        has_trailing_lone_escape(e.subrange(1, e.len() as int))
    }
}

proof fn lemma_no_lone_escape_rest(a: Seq<char>)
    requires
        a.len() > 0,
        !has_trailing_lone_escape(a),
    ensures
        a[0] == '\\' && a.len() >= 2 ==> !has_trailing_lone_escape(a.subrange(2, a.len() as int)),
        !(a[0] == '\\') ==> !has_trailing_lone_escape(a.subrange(1, a.len() as int)),
        a[0] == '\\' ==> a.len() >= 2,
{
}

proof fn lemma_no_lone_escape_append(a: Seq<char>, b: Seq<char>)
    requires
        !has_trailing_lone_escape(a),
        !has_trailing_lone_escape(b),
    ensures
        !has_trailing_lone_escape(a + b),
    decreases a.len(),
{
    if a.len() == 0 {
        assert(a + b =~= b);
    } else if a[0] == '\\' {
        let rest = a.subrange(2, a.len() as int);
        assert((a + b).subrange(2, (a + b).len() as int) =~= rest + b);
        lemma_no_lone_escape_append(rest, b);
    } else {
        let rest = a.subrange(1, a.len() as int);
        assert((a + b).subrange(1, (a + b).len() as int) =~= rest + b);
        lemma_no_lone_escape_append(rest, b);
    }
}

proof fn lemma_escape_char_reads_back(c: char)
    ensures
        unescape_like(escape_like_char(c)) == seq![c],
        !has_bare_wildcard(escape_like_char(c)),
        !has_trailing_lone_escape(escape_like_char(c)),
{
    let e = escape_like_char(c);
    let empty = Seq::<char>::empty();
    assert(unescape_like(empty) == empty);
    assert(!has_bare_wildcard(empty));
    assert(!has_trailing_lone_escape(empty));
    if c == '\\' || c == '%' || c == '_' {
        assert(e.subrange(2, 2) =~= empty);
        assert(unescape_like(e) == seq![c] + unescape_like(empty));
        assert(seq![c] + empty =~= seq![c]);
    } else {
        assert(e.subrange(1, 1) =~= empty);
        assert(unescape_like(e) == seq![c] + unescape_like(empty));
        assert(seq![c] + empty =~= seq![c]);
    }
}

/// Escaping is undone by reading the escapes back, and leaves no bare wildcard.
pub proof fn lemma_escape_like_reads_back(s: Seq<char>)
    ensures
        unescape_like(escape_like(s)) == s,
        !has_bare_wildcard(escape_like(s)),
        !has_trailing_lone_escape(escape_like(s)),
    decreases s.len(),
{
    if s.len() > 0 {
        let init = s.drop_last();
        lemma_escape_like_reads_back(init);
        lemma_escape_char_reads_back(s.last());
        lemma_unescape_append(escape_like(init), escape_like_char(s.last()));
        lemma_no_lone_escape_append(escape_like(init), escape_like_char(s.last()));
        assert(init + seq![s.last()] =~= s);
    }
}

/// A search pattern matches exactly the text it was built from: it is that text
/// wrapped in `%` wildcards, and its body reads back to the text with no bare
/// wildcard of its own.
pub proof fn law_like_pattern_matches_literal_text(s: Seq<char>)
    ensures
        like_pattern_text(s).len() >= 2,
        like_pattern_text(s)[0] == '%',
        like_pattern_text(s).last() == '%',
        unescape_like(like_pattern_text(s).subrange(1, like_pattern_text(s).len() - 1)) == s,
        !has_bare_wildcard(like_pattern_text(s).subrange(1, like_pattern_text(s).len() - 1)),
{
    let p = like_pattern_text(s);
    assert(p.subrange(1, p.len() - 1) =~= escape_like(s));
    lemma_escape_like_reads_back(s);
}

/// The SQL `LIKE` pattern that finds `text` anywhere in message content, with
/// `\`, `%` and `_` escaped so they match themselves.
pub fn like_pattern(text: &str) -> (r: String)
    ensures
        r@ == like_pattern_text(text@),
{
    let v = to_chars(text);
    let mut r = String::new();
    push_char(&mut r, '%');
    let mut i: usize = 0;
    while i < v.len()
        invariant
            i <= v.len(),
            v@ == text@,
            r@ == seq!['%'] + escape_like(v@.subrange(0, i as int)),
        decreases v.len() - i,
    {
        let c = v[i];
        if c == '\\' || c == '%' || c == '_' {
            push_char(&mut r, '\\');
        }
        push_char(&mut r, c);
        proof {
            lemma_escape_like_push(v@.subrange(0, i as int), c);
            assert(v@.subrange(0, i as int).push(c) =~= v@.subrange(0, i + 1));
        }
        i += 1;
        assert(r@ =~= seq!['%'] + escape_like(v@.subrange(0, i as int)));
    }
    push_char(&mut r, '%');
    assert(v@.subrange(0, v.len() as int) =~= v@);
    r
}

/// A message attachment as viewers see it.
pub struct Attachment {
    pub id: u128,
    pub file_name: String,
    pub mime_type: String,
    pub size_bytes: i64,
    pub download_url: String,
    pub is_sensitive: bool,
}

/// A stable excerpt of the message a reply refers to.
pub struct ReplyPreview {
    pub message_id: u128,
    pub sender: String,
    pub content: String,
    pub attachment_file_name: Option<String>,
    pub recalled: bool,
}

/// Where a forwarded message came from.
pub struct ForwardedFrom {
    pub sender: String,
    pub room_name: String,
}

/// One emoji reaction on a message and the accounts that gave it.
pub struct MessageReaction {
    pub emoji: String,
    pub user_ids: Vec<u128>,
}

/// A persisted chat message as one viewer sees it. 
pub struct StoredMessage {
    pub id: u128,
    pub client_message_id: Option<u128>,
    pub room_id: u128,
    pub sender_id: Option<u128>,
    pub sender: String,
    pub sender_avatar: String,
    pub content: String,
    pub attachment: Option<Attachment>,
    pub reply_to: Option<ReplyPreview>,
    pub recalled_at: Option<Timestamp>,
    pub edited_at: Option<Timestamp>,
    pub created_at: Timestamp,
    pub forwarded_from: Option<ForwardedFrom>,
    pub reactions: Vec<MessageReaction>,
}

/// A message row joined with its attachment, reply source and sender.
pub struct MessageRow {
    pub id: u128,
    pub client_message_id: Option<u128>,
    pub room_id: u128,
    pub sender_id: Option<u128>,
    pub sender: String,
    pub sender_avatar: String,
    pub content: String,
    pub recalled_at: Option<Timestamp>,
    pub edited_at: Option<Timestamp>,
    pub created_at: Timestamp,
    pub attachment_id: Option<u128>,
    pub attachment_access_key: Option<u128>,
    pub attachment_file_name: Option<String>,
    pub attachment_mime_type: Option<String>,
    pub attachment_size_bytes: Option<i64>,
    pub attachment_is_sensitive: Option<bool>,
    pub reply_message_id: Option<u128>,
    pub reply_sender: Option<String>,
    pub reply_content: Option<String>,
    pub reply_recalled_at: Option<Timestamp>,
    pub reply_attachment_file_name: Option<String>,
    pub forwarded_from_sender: Option<String>,
    pub forwarded_from_room_name: Option<String>,
}

pub open spec fn opt_text(o: Option<String>) -> Option<Seq<char>> {
    match o {
        Some(s) => Some(s@),
        None => None,
    }
}

/// `/api/attachments/<id>?key=<access key>`.
pub open spec fn download_url_text(id: u128, access_key: u128) -> Seq<char> {
    "/api/attachments/"@ + uuid_text(id) + "?key="@ + uuid_text(access_key)
}

/// The download address of an attachment.
pub fn attachment_download_url(id: u128, access_key: u128) -> (r: String)
    ensures
        r@ == download_url_text(id, access_key),
{
    let mut url = copy_str("/api/attachments/");
    let id_text = uuid_string(id);
    url.append(id_text.as_str());
    url.append("?key=");
    let key_text = uuid_string(access_key);
    url.append(key_text.as_str());
    url
}

/// An uploaded file to be stored with a new message.
pub struct NewAttachment {
    pub file_name: String,
    pub mime_type: String,
    pub is_sensitive: bool,
}

/// What a download needs to know of a stored attachment.
pub struct AttachmentMetadata {
    pub file_name: String,
    pub mime_type: String,
    pub size_bytes: i64,
    pub storage_key: Option<String>,
}

/// What storing a client's text message comes to.
#[derive(Clone, Copy, Debug, PartialEq, Eq, Structural)]
pub enum MessageWrite {
    /// A new message was stored.
    Inserted,
    /// The sender already stored a message with this client message id in
    /// the room; that message is the answer and nothing new is stored.
    Existing,
    /// The sender may not post and nothing with this id was stored before.
    Refused,
}

/// The outcome of storing a text message, given whether the sender may post in
/// the room and whether a message with the same (room, sender, client message
/// id) is already stored: a message without a client id is stored whenever the
/// sender may post; one with an id already stored gives the stored one back.
pub open spec fn planned_message_write(client_message_id: Option<u128>, key_stored: bool, may_send: bool) -> MessageWrite {
    if client_message_id is Some && key_stored {
        MessageWrite::Existing
    } else if may_send {
        MessageWrite::Inserted
    } else {
        MessageWrite::Refused
    }
}

/// Decides how a client's text message is stored.
pub fn message_write(client_message_id: Option<u128>, key_stored: bool, may_send: bool) -> (r: MessageWrite)
    ensures
        r == planned_message_write(client_message_id, key_stored, may_send),
{
    if client_message_id.is_some() && key_stored {
        MessageWrite::Existing
    } else if may_send {
        MessageWrite::Inserted
    } else {
        MessageWrite::Refused
    }
}

/// The (room, sender, client message id) keys of the stored messages after a
/// write: an inserted message with a client id adds its key.
pub open spec fn message_keys_after(keys: Set<(u128, u128, u128)>, room_id: u128, sender_id: u128, client_message_id: Option<u128>, w: MessageWrite) -> Set<(u128, u128, u128)> {
    match client_message_id {
        Some(c) => if w == MessageWrite::Inserted {
            keys.insert((room_id, sender_id, c))
        } else {
            keys
        },
        None => keys,
    }
}

/// A message is stored once per client message id: once a sender's message
/// with a client id is stored in a room, sending it again stores nothing new
/// and answers with the stored message, whether or not the sender may still
/// post, and the stored keys stay as they were.
pub proof fn law_one_message_per_client_id(
    keys: Set<(u128, u128, u128)>,
    room_id: u128,
    sender_id: u128,
    client_message_id: u128,
    may_send_first: bool,
    may_send_again: bool,
)
    ensures
        ({
            let key = (room_id, sender_id, client_message_id);
            let first = planned_message_write(Some(client_message_id), keys.contains(key), may_send_first);
            let after = message_keys_after(keys, room_id, sender_id, Some(client_message_id), first);
            let again = planned_message_write(Some(client_message_id), after.contains(key), may_send_again);
            first != MessageWrite::Refused ==> {
                &&& again == MessageWrite::Existing
                &&& message_keys_after(after, room_id, sender_id, Some(client_message_id), again) == after
            }
        }),
{
}

/// A text message just stored, as its sender sees it: no attachment, no
/// reactions, not recalled or edited.
pub fn new_text_message(
    id: u128,
    client_message_id: Option<u128>,
    room_id: u128,
    sender_id: u128,
    sender: &str,
    sender_avatar: &str,
    content: &str,
    reply_to: Option<ReplyPreview>,
    created_at: Timestamp,
) -> (m: StoredMessage)
    ensures
        m.id == id,
        m.client_message_id == client_message_id,
        m.room_id == room_id,
        m.sender_id == Some(sender_id),
        m.sender@ == sender@,
        m.sender_avatar@ == sender_avatar@,
        m.content@ == content@,
        m.attachment is None,
        m.reply_to == reply_to,
        m.recalled_at is None,
        m.edited_at is None,
        m.created_at == created_at,
        m.forwarded_from is None,
        m.reactions@.len() == 0,
{
    StoredMessage {
        id,
        client_message_id,
        room_id,
        sender_id: Some(sender_id),
        sender: copy_str(sender),
        sender_avatar: copy_str(sender_avatar),
        content: copy_str(content),
        attachment: None,
        reply_to,
        recalled_at: None,
        edited_at: None,
        created_at,
        forwarded_from: None,
        reactions: Vec::new(),
    }
}

/// A message just stored with its attachment, as its sender sees it: the
/// attachment carries its download address built from its id and access key.
pub fn new_attachment_message(
    message_id: u128,
    attachment_id: u128,
    access_key: u128,
    room_id: u128,
    sender_id: u128,
    sender: &str,
    sender_avatar: &str,
    upload: NewAttachment,
    size_bytes: i64,
    content: &str,
    reply_to: Option<ReplyPreview>,
    created_at: Timestamp,
) -> (m: StoredMessage)
    ensures
        m.id == message_id,
        m.client_message_id is None,
        m.room_id == room_id,
        m.sender_id == Some(sender_id),
        m.sender@ == sender@,
        m.sender_avatar@ == sender_avatar@,
        m.content@ == content@,
        m.attachment matches Some(a) && {
            &&& a.id == attachment_id
            &&& a.file_name@ == upload.file_name@
            &&& a.mime_type@ == upload.mime_type@
            &&& a.size_bytes == size_bytes
            &&& a.download_url@ == download_url_text(attachment_id, access_key)
            &&& a.is_sensitive == upload.is_sensitive
        },
        m.reply_to == reply_to,
        m.recalled_at is None,
        m.edited_at is None,
        m.created_at == created_at,
        m.forwarded_from is None,
        m.reactions@.len() == 0,
{
    let attachment = Attachment {
        id: attachment_id,
        file_name: upload.file_name,
        mime_type: upload.mime_type,
        size_bytes,
        download_url: attachment_download_url(attachment_id, access_key),
        is_sensitive: upload.is_sensitive,
    };
    StoredMessage {
        id: message_id,
        client_message_id: None,
        room_id,
        sender_id: Some(sender_id),
        sender: copy_str(sender),
        sender_avatar: copy_str(sender_avatar),
        content: copy_str(content),
        attachment: Some(attachment),
        reply_to,
        recalled_at: None,
        edited_at: None,
        created_at,
        forwarded_from: None,
        reactions: Vec::new(),
    }
}

/// Whether a row can be changed by `sender_id` in `room_id`: it is their message
/// in that room.
pub open spec fn owned_by(row: MessageRow, room_id: u128, sender_id: u128) -> bool {
    row.room_id == room_id && row.sender_id == Some(sender_id)
}

/// Whether `e` is `row` edited at `edited_at`: its content is replaced, the
/// edit time set and the recall cleared, and nothing else changes.
pub open spec fn edit_of(row: MessageRow, e: MessageRow, edited_at: Timestamp) -> bool {
    e == MessageRow { content: e.content, edited_at: Some(edited_at), recalled_at: None, ..row }
}

/// An edit touches only the text, the edit time and the recall: the message
/// keeps its identity, author and time, its reply link and preview, its
/// attachment and its forwarding origin, so what it replies to, carries and was
/// forwarded from is shown as before; editing twice leaves the same record as
/// editing once with the later text and time.
pub proof fn law_edit_keeps_everything_but_the_text(row: MessageRow, e: MessageRow, e2: MessageRow, t: Timestamp, t2: Timestamp)
    ensures
        edit_of(row, e, t) ==> {
            &&& e.id == row.id && e.client_message_id == row.client_message_id && e.room_id == row.room_id
            &&& e.sender_id == row.sender_id && e.sender == row.sender && e.sender_avatar == row.sender_avatar
            &&& e.created_at == row.created_at
            &&& e.edited_at == Some(t) && e.recalled_at is None
            &&& e.reply_message_id == row.reply_message_id && e.reply_sender == row.reply_sender
            &&& e.reply_content == row.reply_content && e.reply_recalled_at == row.reply_recalled_at
            &&& e.reply_attachment_file_name == row.reply_attachment_file_name
            &&& e.attachment_id == row.attachment_id && e.attachment_access_key == row.attachment_access_key
            &&& e.attachment_file_name == row.attachment_file_name && e.attachment_mime_type == row.attachment_mime_type
            &&& e.attachment_size_bytes == row.attachment_size_bytes
            &&& e.attachment_is_sensitive == row.attachment_is_sensitive
            &&& e.forwarded_from_sender == row.forwarded_from_sender
            &&& e.forwarded_from_room_name == row.forwarded_from_room_name
            &&& row_has_reply(e) == row_has_reply(row)
            &&& row_has_attachment(e) == row_has_attachment(row)
        },
        edit_of(row, e, t) && edit_of(e, e2, t2) ==> edit_of(row, e2, t2),
{
}

/// Edits a message: only its sender can, in its room. The new content replaces
/// the old, the edit time is recorded, and a recalled message is recalled no
/// more (its sender republishes it).
pub fn apply_edit(row: MessageRow, room_id: u128, sender_id: u128, content: &str, edited_at: Timestamp) -> (r: Result<MessageRow, MessageRow>)
    ensures
        r is Ok <==> owned_by(row, room_id, sender_id),
        r matches Err(same) ==> same == row,
        r matches Ok(e) ==> {
            &&& e.content@ == content@
            &&& e.edited_at == Some(edited_at)
            &&& e.recalled_at is None
            &&& e.id == row.id
            &&& e.room_id == row.room_id
            &&& e.sender_id == row.sender_id
            &&& e.created_at == row.created_at
            &&& e.attachment_id == row.attachment_id
            &&& forall|viewer: Option<u128>| !redacted_for(e.recalled_at, e.sender_id, viewer)
            &&& edit_of(row, e, edited_at)
        },
{
    if row.room_id != room_id || row.sender_id != Some(sender_id) {
        return Err(row);
    }
    Ok(MessageRow { content: copy_str(content), edited_at: Some(edited_at), recalled_at: None, ..row })
}

/// Recalls a message: only its sender can, in its room, and only once. The
/// record (content and attachment included) is kept; only the recall time is set.
pub fn apply_recall(row: MessageRow, room_id: u128, sender_id: u128, recalled_at: Timestamp) -> (r: Result<MessageRow, MessageRow>)
    ensures
        r is Ok <==> owned_by(row, room_id, sender_id) && row.recalled_at is None,
        r matches Err(same) ==> same == row,
        r matches Ok(e) ==> e == (MessageRow { recalled_at: Some(recalled_at), ..row }),
        r matches Ok(e) ==> forall|viewer: Option<u128>|
            redacted_for(e.recalled_at, e.sender_id, viewer) <==> viewer != Some(sender_id),
{
    if row.room_id != room_id || row.sender_id != Some(sender_id) || row.recalled_at.is_some() {
        return Err(row);
    }
    Ok(MessageRow { recalled_at: Some(recalled_at), ..row })
}

/// Whether a viewer sees a recalled message blanked: everyone but its sender does.
pub open spec fn redacted_for(recalled_at: Option<Timestamp>, sender_id: Option<u128>, viewer_id: Option<u128>) -> bool {
    recalled_at is Some && viewer_id != sender_id
}

/// A row carries a complete attachment.
pub open spec fn row_has_attachment(row: MessageRow) -> bool {
    row.attachment_id is Some && row.attachment_file_name is Some && row.attachment_mime_type
        is Some && row.attachment_size_bytes is Some && row.attachment_access_key is Some
}

/// A row carries a reply preview that can be shown.
pub open spec fn row_has_reply(row: MessageRow) -> bool {
    row.reply_message_id is Some && row.reply_sender is Some && (row.reply_recalled_at is Some
        || row.reply_content is Some)
}

/// Converts a message row into what `viewer_id` sees. A recalled message stays
/// visible to its sender (so it can be edited again) and is blanked, content and
/// attachment, for everyone else. A recalled reply source shows neither content
/// nor file name. Partial attachment, reply or forwarding data is dropped.
pub fn into_message(row: MessageRow, viewer_id: Option<u128>) -> (m: StoredMessage)
    ensures
        m.id == row.id,
        m.client_message_id == row.client_message_id,
        m.room_id == row.room_id,
        m.sender_id == row.sender_id,
        m.sender@ == row.sender@,
        m.sender_avatar@ == row.sender_avatar@,
        m.content@ == if redacted_for(row.recalled_at, row.sender_id, viewer_id) {
            Seq::<char>::empty()
        } else {
            row.content@
        },
        m.attachment is Some <==> !redacted_for(row.recalled_at, row.sender_id, viewer_id)
            && row_has_attachment(row),
        m.attachment matches Some(a) ==> {
            &&& Some(a.id) == row.attachment_id
            &&& Some(a.file_name@) == opt_text(row.attachment_file_name)
            &&& Some(a.mime_type@) == opt_text(row.attachment_mime_type)
            &&& Some(a.size_bytes) == row.attachment_size_bytes
            &&& a.download_url@ == download_url_text(a.id, row.attachment_access_key->0)
            &&& a.is_sensitive == (row.attachment_is_sensitive == Some(true))
        },
        m.reply_to is Some <==> row_has_reply(row),
        m.reply_to matches Some(r) ==> {
            &&& Some(r.message_id) == row.reply_message_id
            &&& Some(r.sender@) == opt_text(row.reply_sender)
            &&& r.recalled == row.reply_recalled_at is Some
            &&& r.content@ == if r.recalled {
                Seq::<char>::empty()
            } else {
                row.reply_content->0@
            }
            &&& opt_text(r.attachment_file_name) == if r.recalled {
                None
            } else {
                opt_text(row.reply_attachment_file_name)
            }
        },
        m.recalled_at == row.recalled_at,
        m.edited_at == row.edited_at,
        m.created_at == row.created_at,
        m.forwarded_from is Some <==> row.forwarded_from_sender is Some
            && row.forwarded_from_room_name is Some,
        m.forwarded_from matches Some(f) ==> Some(f.sender@) == opt_text(row.forwarded_from_sender)
            && Some(f.room_name@) == opt_text(row.forwarded_from_room_name),
        m.reactions@.len() == 0,
{
    let redact = row.recalled_at.is_some() && viewer_id != row.sender_id;
    let attachment = if redact {
        None
    } else {
        match (
            row.attachment_id,
            row.attachment_file_name,
            row.attachment_mime_type,
            row.attachment_size_bytes,
            row.attachment_access_key,
        ) {
            (Some(id), Some(file_name), Some(mime_type), Some(size_bytes), Some(access_key)) => {
                Some(
                    Attachment {
                        id,
                        file_name,
                        mime_type,
                        size_bytes,
                        download_url: attachment_download_url(id, access_key),
                        is_sensitive: match row.attachment_is_sensitive {
                            Some(b) => b,
                            None => false,
                        },
                    },
                )
            },
            _ => None,
        }
    };
    let reply_recalled = row.reply_recalled_at.is_some();
    let reply_to = match (row.reply_message_id, row.reply_sender) {
        (Some(message_id), Some(sender)) => {
            if reply_recalled {
                Some(
                    ReplyPreview {
                        message_id,
                        sender,
                        content: String::new(),
                        attachment_file_name: None,
                        recalled: true,
                    },
                )
            } else {
                match row.reply_content {
                    Some(content) => Some(
                        ReplyPreview {
                            message_id,
                            sender,
                            content,
                            attachment_file_name: row.reply_attachment_file_name,
                            recalled: false,
                        },
                    ),
                    None => None,
                }
            }
        },
        _ => None,
    };
    let forwarded_from = match (row.forwarded_from_sender, row.forwarded_from_room_name) {
        (Some(sender), Some(room_name)) => Some(ForwardedFrom { sender, room_name }),
        _ => None,
    };
    StoredMessage {
        id: row.id,
        client_message_id: row.client_message_id,
        room_id: row.room_id,
        sender_id: row.sender_id,
        sender: row.sender,
        sender_avatar: row.sender_avatar,
        content: if redact {
            String::new()
        } else {
            row.content
        },
        attachment,
        reply_to,
        recalled_at: row.recalled_at,
        edited_at: row.edited_at,
        created_at: row.created_at,
        forwarded_from,
        reactions: Vec::new(),
    }
}

/// A recalled message never shows its content or attachment to anyone but its
/// sender, and its sender always sees it whole.
pub proof fn law_recall_hides_message_from_others(
    recalled_at: Option<Timestamp>,
    sender_id: Option<u128>,
    viewer_id: Option<u128>,
)
    ensures
        recalled_at is Some && viewer_id != sender_id ==> redacted_for(recalled_at, sender_id, viewer_id),
        viewer_id == sender_id ==> !redacted_for(recalled_at, sender_id, viewer_id),
        recalled_at is None ==> !redacted_for(recalled_at, sender_id, viewer_id),
{
}

/// The referenced message of a reply, as `reply_preview` reads it.
pub struct ReplySource {
    pub message_id: u128,
    pub sender: String,
    pub content: String,
    pub attachment_file_name: Option<String>,
    pub recalled_at: Option<Timestamp>,
}

/// The reply preview stored with a new message; a recalled source keeps only its
/// identity and sender.
pub fn reply_preview(source: Option<ReplySource>) -> (r: Option<ReplyPreview>)
    ensures
        r is Some <==> source is Some,
        r matches Some(p) ==> {
            let s = source->0;
            &&& p.message_id == s.message_id
            &&& p.sender@ == s.sender@
            &&& p.recalled == s.recalled_at is Some
            &&& p.content@ == if p.recalled {
                Seq::<char>::empty()
            } else {
                s.content@
            }
            &&& opt_text(p.attachment_file_name) == if p.recalled {
                None
            } else {
                opt_text(s.attachment_file_name)
            }
        },
{
    match source {
        Some(s) => {
            let recalled = s.recalled_at.is_some();
            Some(
                ReplyPreview {
                    message_id: s.message_id,
                    sender: s.sender,
                    content: if recalled {
                        String::new()
                    } else {
                        s.content
                    },
                    attachment_file_name: if recalled {
                        None
                    } else {
                        s.attachment_file_name
                    },
                    recalled,
                },
            )
        },
        None => None,
    }
}

/// Position in a room's message history: creation time, then message id.
#[derive(Clone, Copy, Debug, PartialEq, Eq, Structural)]
pub struct MessageCursor {
    pub created_at: Timestamp,
    pub id: u128,
}

/// Strict order of history positions: by time, then by id.
pub open spec fn cursor_before(a: MessageCursor, b: MessageCursor) -> bool {
    instant_before(a.created_at, b.created_at) || (a.created_at == b.created_at && a.id < b.id)
}

} // verus!
