//! Search across every conversation a viewer can read: parameter checks, result
//! cursors, content types and the excerpts shown for each hit.
use vstd::prelude::*;
use crate::http::Status;
use crate::interop::{
    format_rfc3339, instant_before, parse_rfc3339, parse_uuid, parsed_uuid, rfc3339_instant,
    rfc3339_text, Timestamp, uuid_string, uuid_text, hex_digit, id_digits,
};
use crate::text::{
    copy_str, lemma_last_index_prefix, rsplit_once, rsplit_text, shorten, shorten_chars, split_once,
    split_text, str_eq, to_chars, trim, trim_bounds, trim_str,
};

verus! {

broadcast use vstd::string::group_string_axioms;

/// What kind of message a search is restricted to, or finds.
#[derive(Clone, Copy, Debug, PartialEq, Eq, Structural)]
pub enum SearchContentType {
    All,
    Text,
    File,
    Image,
    Video,
    Audio,
}

/// The lower-case name of a content type.
pub open spec fn content_type_text(t: SearchContentType) -> Seq<char> {
    match t {
        SearchContentType::All => "all"@,
        SearchContentType::Text => "text"@,
        SearchContentType::File => "file"@,
        SearchContentType::Image => "image"@,
        SearchContentType::Video => "video"@,
        SearchContentType::Audio => "audio"@,
    }
}

/// The content type of a message from its attachment's MIME type: no attachment
/// (or a type without `/`) is text; `image/`, `video/` and `audio/` types are
/// images, videos and audio; any other type is a file.
pub open spec fn content_type_of(mime_type: Option<Seq<char>>) -> SearchContentType {
    match mime_type {
        Some(m) => match split_text(m, '/') {
            Some((kind, _)) => if kind == "image"@ {
                SearchContentType::Image
            } else if kind == "video"@ {
                SearchContentType::Video
            } else if kind == "audio"@ {
                SearchContentType::Audio
            } else {
                SearchContentType::File
            },
            None => SearchContentType::Text,
        },
        None => SearchContentType::Text,
    }
}

impl SearchContentType {
    /// The lower-case name of the content type.
    pub fn as_str(self) -> (s: &'static str)
        ensures
            s@ == content_type_text(self),
    {
        match self {
            SearchContentType::All => "all",
            SearchContentType::Text => "text",
            SearchContentType::File => "file",
            SearchContentType::Image => "image",
            SearchContentType::Video => "video",
            SearchContentType::Audio => "audio",
        }
    }

    /// Classifies a message by the part of its attachment's MIME type before the
    /// first `/`.
    pub fn from_mime_type(mime_type: Option<&str>) -> (t: SearchContentType)
        ensures
            t == content_type_of(
                match mime_type {
                    Some(m) => Some(m@),
                    None => None,
                },
            ),
    {
        match mime_type {
            Some(m) => match split_once(m, '/') {
                Some((kind, _)) => {
                    if str_eq(kind.as_str(), "image") {
                        SearchContentType::Image
                    } else if str_eq(kind.as_str(), "video") {
                        SearchContentType::Video
                    } else if str_eq(kind.as_str(), "audio") {
                        SearchContentType::Audio
                    } else {
                        SearchContentType::File
                    }
                },
                None => SearchContentType::Text,
            },
            None => SearchContentType::Text,
        }
    }
}

impl Default for SearchContentType {
    /// Searches look at every kind of message unless told otherwise.
    fn default() -> (t: SearchContentType)
        ensures
            t == SearchContentType::All,
    {
        SearchContentType::All
    }
}

/// A position in search results: creation time, then message id.
#[derive(Clone, Copy, Debug, PartialEq, Eq, Structural)]
pub struct SearchCursor {
    pub created_at: Timestamp,
    pub message_id: u128,
}

/// `<RFC 3339 time>|<hyphenated message id>`, where chrono can write the time.
pub open spec fn search_cursor_text(c: SearchCursor) -> Option<Seq<char>> {
    match rfc3339_text(c.created_at) {
        Some(t) => Some(t + seq!['|'] + uuid_text(c.message_id)),
        None => None,
    }
}

/// The cursor a text stands for: split at the last `|`, the time read as RFC 3339
/// and the identifier read by the uuid crate.
pub open spec fn search_cursor_parse(s: Seq<char>) -> Option<SearchCursor> {
    match rsplit_text(s, '|') {
        Some((t, id)) => match (rfc3339_instant(t), parsed_uuid(id)) {
            (Some(at), Some(m)) => Some(SearchCursor { created_at: at, message_id: m }),
            _ => None,
        },
        None => None,
    }
}

impl SearchCursor {
    /// Reads a cursor: the text after the last `|` is a message id, the text before
    /// it an RFC 3339 time.
    pub fn from_str(value: &str) -> (r: Result<SearchCursor, ()>)
        ensures
            match r {
                Ok(c) => search_cursor_parse(value@) == Some(c),
                Err(_) => search_cursor_parse(value@) is None,
            },
    {
        match rsplit_once(value, '|') {
            Some((time_text, id_text)) => match (
                parse_rfc3339(time_text.as_str()),
                parse_uuid(id_text.as_str()),
            ) {
                (Some(created_at), Some(message_id)) => Ok(SearchCursor { created_at, message_id }),
                _ => Err(()),
            },
            None => Err(()),
        }
    }

    /// The cursor's text, `None` where chrono has no such instant.
    pub fn to_text(&self) -> (r: Option<String>)
        ensures
            match r {
                Some(s) => search_cursor_text(*self) == Some(s@),
                None => search_cursor_text(*self) is None,
            },
    {
        match format_rfc3339(self.created_at) {
            Some(mut s) => {
                proof {
                    reveal_strlit("|");
                }
                s.append("|");
                let id = uuid_string(self.message_id);
                s.append(id.as_str());
                Some(s)
            },
            None => None,
        }
    }
}

proof fn lemma_hex_digit_not_bar(n: int)
    requires
        0 <= n < 16,
    ensures
        hex_digit(n) != '|',
{
    if n < 10 {
        assert((48 + n) as char as int == 48 + n);
    } else {
        assert((87 + n) as char as int == 87 + n);
    }
}

proof fn lemma_uuid_text_has_no_bar(id: u128)
    ensures
        !uuid_text(id).contains('|'),
{
    let d = id_digits(id);
    assert forall|i: int| 0 <= i < 32 implies d[i] != '|' by {
        let p = vstd::arithmetic::power::pow(16, (31 - i) as nat);
        vstd::arithmetic::power::lemma_pow_positive(16, (31 - i) as nat);
        lemma_hex_digit_not_bar(((id as int) / p) % 16);
    }
    let u = uuid_text(id);
    assert forall|k: int| 0 <= k < u.len() implies u[k] != '|' by {
        if k < 8 {
            assert(u[k] == d[k]);
        } else if k == 8 || k == 13 || k == 18 || k == 23 {
            assert(u[k] == '-');
        } else if k < 13 {
            assert(u[k] == d[k - 1]);
        } else if k < 18 {
            assert(u[k] == d[k - 2]);
        } else if k < 23 {
            assert(u[k] == d[k - 3]);
        } else {
            assert(u[k] == d[k - 4]);
        }
    }
}

/// A search cursor's text splits back into its time text and the hyphenated id,
/// so reading it gives the time chrono reads from that text and the id the uuid
/// crate reads from its own text.
pub proof fn law_search_cursor_reads_back(c: SearchCursor)
    requires
        rfc3339_text(c.created_at) is Some,
    ensures
        rsplit_text(search_cursor_text(c)->0, '|') == Some(
            (rfc3339_text(c.created_at)->0, uuid_text(c.message_id)),
        ),
        search_cursor_parse(search_cursor_text(c)->0) == match (
            rfc3339_instant(rfc3339_text(c.created_at)->0),
            parsed_uuid(uuid_text(c.message_id)),
        ) {
            (Some(at), Some(m)) => Some(SearchCursor { created_at: at, message_id: m }),
            _ => None,
        },
{
    let t = rfc3339_text(c.created_at)->0;
    let u = uuid_text(c.message_id);
    let s = t + seq!['|'] + u;
    let n: int = t.len() as int + 1;
    lemma_uuid_text_has_no_bar(c.message_id);
    assert forall|k: int| n <= k < s.len() implies s[k] != '|' by {
        assert(s[k] == u[k - n]);
    }
    lemma_last_index_prefix(s, '|', n);
    assert(s.subrange(0, n).last() == '|');
    assert(s.subrange(n, s.len() as int) =~= u);
    assert(s.subrange(0, n - 1) =~= t);
}

/// The text shown for a hit: trimmed, cut to `max` characters, with `...` when cut.
pub open spec fn excerpt_text(value: Seq<char>, max: int) -> Seq<char> {
    shorten(trim(value), max)
}

/// `value` trimmed and cut to `max_chars` characters; `...` marks a cut.
pub fn excerpt(value: &str, max_chars: usize) -> (r: String)
    ensures
        r@ == excerpt_text(value@, max_chars as int),
{
    let v = to_chars(value);
    let (a, b) = trim_bounds(&v);
    shorten_chars(&v, a, b, max_chars)
}

/// The page size used when none is asked for.
pub const DEFAULT_SEARCH_LIMIT: i64 = 30;

/// The largest page size.
pub const MAX_SEARCH_LIMIT: i64 = 50;

/// Query parameters of a search across conversations.
pub struct GlobalMessageSearchParams {
    pub q: String,
    pub room_id: Option<u128>,
    pub sender_id: Option<u128>,
    pub from: Option<Timestamp>,
    pub to: Option<Timestamp>,
    pub content_type: SearchContentType,
    pub cursor: Option<String>,
    pub limit: Option<i64>,
}

/// A checked search across conversations.
pub struct VisibleMessageSearch {
    pub text: String,
    pub room_id: Option<u128>,
    pub sender_id: Option<u128>,
    pub from: Option<Timestamp>,
    pub to: Option<Timestamp>,
    pub content_type: SearchContentType,
    pub cursor: Option<SearchCursor>,
    pub limit: i64,
}

/// The page size a search asks for.
pub open spec fn search_limit(limit: Option<i64>) -> i64 {
    match limit {
        Some(l) => l,
        None => DEFAULT_SEARCH_LIMIT,
    }
}

/// Whether search parameters pass the checks made before the cursor is read:
/// a non-blank query of at most 200 characters, a limit in 1..=50, and a time
/// range whose start is not after its end.
pub open spec fn search_params_ok(p: GlobalMessageSearchParams) -> bool {
    &&& 0 < trim(p.q@).len() <= 200
    &&& 1 <= search_limit(p.limit) <= MAX_SEARCH_LIMIT
    &&& match (p.from, p.to) {
        (Some(f), Some(t)) => !instant_before(t, f),
        _ => true,
    }
}

/// Checks search parameters; every refusal is a bad request.
pub fn normalize(params: GlobalMessageSearchParams) -> (r: Result<VisibleMessageSearch, Status>)
    ensures
        r is Ok <==> search_params_ok(params) && match params.cursor {
            Some(c) => search_cursor_parse(c@) is Some,
            None => true,
        },
        r matches Err(e) ==> e == Status::BadRequest,
        r matches Ok(s) ==> {
            &&& s.text@ == trim(params.q@)
            &&& s.room_id == params.room_id
            &&& s.sender_id == params.sender_id
            &&& s.from == params.from
            &&& s.to == params.to
            &&& s.content_type == params.content_type
            &&& s.limit == search_limit(params.limit)
            &&& match (s.cursor, params.cursor) {
                (Some(c), Some(t)) => search_cursor_parse(t@) == Some(c),
                (None, None) => true,
                _ => false,
            }
        },
{
    let text = trim_str(params.q.as_str());
    let n = text.as_str().unicode_len();
    let limit = match params.limit {
        Some(l) => l,
        None => DEFAULT_SEARCH_LIMIT,
    };
    let reversed = match (params.from, params.to) {
        (Some(f), Some(t)) => t.secs < f.secs || (t.secs == f.secs && t.nanos < f.nanos),
        _ => false,
    };
    if n == 0 || n > 200 || limit < 1 || limit > MAX_SEARCH_LIMIT || reversed {
        return Err(Status::BadRequest);
    }
    let cursor = match params.cursor {
        Some(c) => match SearchCursor::from_str(c.as_str()) {
            Ok(c) => Some(c),
            Err(_) => {
                return Err(Status::BadRequest);
            },
        },
        None => None,
    };
    Ok(
        VisibleMessageSearch {
            text,
            room_id: params.room_id,
            sender_id: params.sender_id,
            from: params.from,
            to: params.to,
            content_type: params.content_type,
            cursor,
            limit,
        },
    )
}

/// A message found by the search, with what the query joins to it.
pub struct SearchRow {
    pub message_id: u128,
    pub room_id: u128,
    pub conversation_kind: String,
    pub conversation_title: String,
    pub sender_id: Option<u128>,
    pub sender: String,
    pub content: String,
    pub attachment_file_name: Option<String>,
    pub attachment_mime_type: Option<String>,
    pub context_before: Option<String>,
    pub context_after: Option<String>,
    pub created_at: Timestamp,
}

/// One search hit as shown.
pub struct GlobalMessageSearchResult {
    pub message_id: u128,
    pub room_id: u128,
    pub conversation_kind: String,
    pub conversation_title: String,
    pub sender_id: Option<u128>,
    pub sender: String,
    pub excerpt: String,
    pub content_type: SearchContentType,
    pub attachment_file_name: Option<String>,
    pub context_before: Option<String>,
    pub context_after: Option<String>,
    pub created_at: Timestamp,
}

pub open spec fn opt_seq(o: Option<String>) -> Option<Seq<char>> {
    match o {
        Some(s) => Some(s@),
        None => None,
    }
}

/// The excerpt of an optional neighbouring message.
pub open spec fn context_excerpt(o: Option<String>) -> Option<Seq<char>> {
    match o {
        Some(s) => Some(excerpt_text(s@, 100)),
        None => None,
    }
}

/// How a row is shown: the content as a 180-character excerpt, the neighbours as
/// 100-character excerpts, and the content type from the attachment.
pub open spec fn result_of_row(row: SearchRow, r: GlobalMessageSearchResult) -> bool {
    &&& r.message_id == row.message_id
    &&& r.room_id == row.room_id
    &&& r.conversation_kind@ == row.conversation_kind@
    &&& r.conversation_title@ == row.conversation_title@
    &&& r.sender_id == row.sender_id
    &&& r.sender@ == row.sender@
    &&& r.excerpt@ == excerpt_text(row.content@, 180)
    &&& r.content_type == content_type_of(opt_seq(row.attachment_mime_type))
    &&& opt_seq(r.attachment_file_name) == opt_seq(row.attachment_file_name)
    &&& opt_seq(r.context_before) == context_excerpt(row.context_before)
    &&& opt_seq(r.context_after) == context_excerpt(row.context_after)
    &&& r.created_at == row.created_at
}

fn context_of(o: Option<String>) -> (r: Option<String>)
    ensures
        opt_seq(r) == context_excerpt(o),
{
    match o {
        Some(s) => Some(excerpt(s.as_str(), 100)),
        None => None,
    }
}

impl SearchRow {
    /// The result position of the row.
    pub fn cursor(&self) -> (c: SearchCursor)
        ensures
            c.created_at == self.created_at,
            c.message_id == self.message_id,
    {
        SearchCursor { created_at: self.created_at, message_id: self.message_id }
    }

    /// The hit as shown to the viewer.
    pub fn into_result(self) -> (r: GlobalMessageSearchResult)
        ensures
            result_of_row(self, r),
    {
        let ghost row = self;
        let content_type = match &self.attachment_mime_type {
            Some(m) => SearchContentType::from_mime_type(Some(m.as_str())),
            None => SearchContentType::from_mime_type(None),
        };
        GlobalMessageSearchResult {
            message_id: self.message_id,
            room_id: self.room_id,
            conversation_kind: self.conversation_kind,
            conversation_title: self.conversation_title,
            sender_id: self.sender_id,
            sender: self.sender,
            excerpt: excerpt(self.content.as_str(), 180),
            content_type,
            attachment_file_name: self.attachment_file_name,
            context_before: context_of(self.context_before),
            context_after: context_of(self.context_after),
            created_at: self.created_at,
        }
    }
}

/// A page of hits and, when more follow, the cursor after its last hit.
pub struct GlobalMessageSearchPage {
    pub items: Vec<GlobalMessageSearchResult>,
    pub next_cursor: Option<String>,
}

/// The first `limit` rows (all of them when there are fewer).
pub open spec fn first_rows(rows: Seq<SearchRow>, limit: usize) -> Seq<SearchRow> {
    if rows.len() > limit {
        rows.subrange(0, limit as int)
    } else {
        rows
    }
}

/// Builds a page from the rows fetched for it (newest first): the first `limit`
/// rows are shown, and a cursor after the last of them is given when more rows
/// were fetched than shown.
pub fn search_page(rows: Vec<SearchRow>, limit: usize) -> (p: GlobalMessageSearchPage)
    ensures
        p.items@.len() == first_rows(rows@, limit).len(),
        forall|i: int|
            0 <= i < p.items@.len() ==> result_of_row(
                first_rows(rows@, limit)[i],
                #[trigger] p.items@[i],
            ),
        if rows@.len() > limit && limit > 0 {
            let last = rows@[limit - 1];
            match p.next_cursor {
                Some(t) => search_cursor_text(
                    SearchCursor { created_at: last.created_at, message_id: last.message_id },
                ) == Some(t@),
                None => search_cursor_text(
                    SearchCursor { created_at: last.created_at, message_id: last.message_id },
                ) is None,
            }
        } else {
            p.next_cursor is None
        },
{
    let ghost original = rows@;
    let mut fetched = rows;
    let has_more = fetched.len() > limit;
    fetched.truncate(limit);
    let ghost kept = fetched@;
    assert(kept =~= first_rows(original, limit));
    let next_cursor = if has_more && fetched.len() > 0 {
        let last = fetched.len() - 1;
        fetched[last].cursor().to_text()
    } else {
        None
    };
    let mut items: Vec<GlobalMessageSearchResult> = Vec::new();
    let n = fetched.len();
    let mut i: usize = 0;
    while i < n
        invariant
            n == kept.len(),
            i <= n,
            fetched@ == kept.subrange(i as int, n as int),
            items@.len() == i,
            forall|j: int| 0 <= j < i ==> result_of_row(kept[j], #[trigger] items@[j]),
        decreases n - i,
    {
        let row = fetched.remove(0);
        assert(row == kept[i as int]);
        items.push(row.into_result());
        i += 1;
        assert(fetched@ =~= kept.subrange(i as int, n as int));
    }
    GlobalMessageSearchPage { items, next_cursor }
}

} // verus!
