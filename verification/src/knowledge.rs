//! Retrieval over room history: the limits of the vector and graph services,
//! the outbox retry schedule, which retrieved messages and graph facts a member
//! may see, and how evidence is labelled for citation.
use vstd::prelude::*;
use crate::interop::{format_rfc3339_offset, rfc3339_offset_text, Timestamp};
use crate::messages::{attachment_download_url, download_url_text};
use crate::text::{from_chars, push_char, to_chars, trim, trim_bounds};

verus! {

broadcast use vstd::string::group_string_axioms;

/// The first `n` characters of `s`.
pub open spec fn first_chars(s: Seq<char>, n: int) -> Seq<char> {
    if s.len() <= n {
        s
    } else {
        s.subrange(0, n)
    }
}

/// `value` cut to `limit` characters, the last of them `…` when something was cut.
pub open spec fn truncated_with_ellipsis(value: Seq<char>, limit: int) -> Seq<char> {
    if value.len() <= limit {
        value
    } else {
        value.subrange(0, if limit > 0 {
            limit - 1
        } else {
            0
        }) + seq!['\u{2026}']
    }
}

/// Cuts a text to at most `limit` characters, marking a cut with `…` (which
/// takes the place of the last character kept).
pub fn truncate_chars(value: &str, limit: usize) -> (r: String)
    ensures
        r@ == truncated_with_ellipsis(value@, limit as int),
{
    let v = to_chars(value);
    if v.len() <= limit {
        return from_chars(&v, 0, v.len());
    }
    let keep: usize = if limit > 0 {
        limit - 1
    } else {
        0
    };
    let mut r = from_chars(&v, 0, keep);
    push_char(&mut r, '\u{2026}');
    r
}

/// The longest relation or fact text given to the model.
pub const MAX_FACT_CHARS: usize = 2000;

/// Cuts a graph fact's text to its first 2000 characters.
pub fn truncate(value: &str) -> (r: String)
    ensures
        r@ == first_chars(value@, MAX_FACT_CHARS as int),
{
    let v = to_chars(value);
    if v.len() <= MAX_FACT_CHARS {
        proof {
            assert(v@.subrange(0, v@.len() as int) =~= v@);
        }
        return from_chars(&v, 0, v.len());
    }
    from_chars(&v, 0, MAX_FACT_CHARS)
}

/// `x` held inside `lo..=hi`.
pub open spec fn clamp_int(x: int, lo: int, hi: int) -> int {
    if x < lo {
        lo
    } else if x > hi {
        hi
    } else {
        x
    }
}

/// Seconds before an outbox job is tried again: 2 to the power of its attempt
/// count held in 0..=8, kept within 1..=300.
pub open spec fn outbox_retry_delay(attempt_count: int) -> int {
    clamp_int(vstd::arithmetic::power2::pow2(clamp_int(attempt_count, 0, 8) as nat) as int, 1, 300)
}

/// The retry delay of an outbox job, in seconds.
pub fn retry_delay_secs(attempt_count: i64) -> (r: i64)
    ensures
        r == outbox_retry_delay(attempt_count as int),
        1 <= r <= 256,
{
    let e: i64 = if attempt_count < 0 {
        0
    } else if attempt_count > 8 {
        8
    } else {
        attempt_count
    };
    let mut d: i64 = 1;
    let mut k: i64 = 0;
    proof {
        vstd::arithmetic::power2::lemma2_to64();
    }
    while k < e
        invariant
            0 <= k <= e <= 8,
            d == vstd::arithmetic::power2::pow2(k as nat),
        decreases e - k,
    {
        proof {
            vstd::arithmetic::power2::lemma_pow2_unfold((k + 1) as nat);
            vstd::arithmetic::power2::lemma2_to64();
            vstd::arithmetic::power2::lemma_pow2_strictly_increases(k as nat, 8);
        }
        d = d * 2;
        k += 1;
    }
    proof {
        vstd::arithmetic::power2::lemma2_to64();
        vstd::arithmetic::power2::lemma_pow2_pos(e as nat);
        if e < 8 {
            vstd::arithmetic::power2::lemma_pow2_strictly_increases(e as nat, 8);
        }
    }
    d
}

/// The error kept with a failed outbox job: its first 300 characters.
pub fn last_error_text(error: &str) -> (r: String)
    ensures
        r@ == first_chars(error@, 300),
{
    let v = to_chars(error);
    if v.len() <= 300 {
        proof {
            assert(v@.subrange(0, v@.len() as int) =~= v@);
        }
        return from_chars(&v, 0, v.len());
    }
    from_chars(&v, 0, 300)
}

/// How many vector candidates are fetched: three per result kept, at most 50.
pub fn candidate_limit(top_k: usize) -> (r: usize)
    ensures
        r == if 3 * top_k > 50 {
            50
        } else {
            3 * top_k
        },
{
    if top_k > 16 {
        50
    } else if 3 * top_k > 50 {
        50
    } else {
        3 * top_k
    }
}

/// How many reranked documents are asked for: the result limit, or fewer when
/// there are fewer documents.
pub fn rerank_top_n(top_k: usize, documents: usize) -> (r: usize)
    ensures
        r == if top_k < documents {
            top_k
        } else {
            documents
        },
{
    if top_k < documents {
        top_k
    } else {
        documents
    }
}

/// The decimal digit for a value below 10.
pub open spec fn digit_char(d: int) -> char {
    (48 + d) as char
}

/// The decimal text of a number.
pub open spec fn decimal_text(n: nat) -> Seq<char>
    decreases n,
{
    if n < 10 {
        seq![digit_char(n as int)]
    } else {
        decimal_text(n / 10) + seq![digit_char((n % 10) as int)]
    }
}

fn push_decimal(s: &mut String, n: usize)
    ensures
        final(s)@ == old(s)@ + decimal_text(n as nat),
    decreases n,
{
    if n >= 10 {
        push_decimal(s, n / 10);
    }
    let d: u8 = (n % 10) as u8;
    let c = (48u8 + d) as char;
    push_char(s, c);
    proof {
        if n < 10 {
            assert(old(s)@ + decimal_text(n as nat) =~= old(s)@.push(digit_char(n as int)));
        } else {
            assert(old(s)@ + decimal_text(n as nat) =~= old(s)@ + decimal_text((n / 10) as nat)
                + seq![digit_char((n % 10) as int)]);
        }
    }
}

proof fn lemma_decimal_len(n: nat)
    ensures
        decimal_text(n).len() >= 1,
        n >= 10 ==> decimal_text(n).len() >= 2,
    decreases n,
{
    if n >= 10 {
        lemma_decimal_len(n / 10);
    }
}

proof fn lemma_decimal_injective(m: nat, n: nat)
    requires
        decimal_text(m) == decimal_text(n),
    ensures
        m == n,
    decreases m,
{
    lemma_decimal_len(m);
    lemma_decimal_len(n);
    if m < 10 && n < 10 {
        assert(decimal_text(m)[0] == digit_char(m as int));
        assert(decimal_text(n)[0] == digit_char(n as int));
        assert((48 + m) as char as int == 48 + m);
        assert((48 + n) as char as int == 48 + n);
    } else if m >= 10 && n >= 10 {
        let a = decimal_text(m);
        let b = decimal_text(n);
        assert(a.last() == digit_char((m % 10) as int));
        assert(b.last() == digit_char((n % 10) as int));
        assert(((48 + m % 10) as char) as int == 48 + m % 10);
        assert(((48 + n % 10) as char) as int == 48 + n % 10);
        assert(a.drop_last() =~= decimal_text(m / 10));
        assert(b.drop_last() =~= decimal_text(n / 10));
        lemma_decimal_injective(m / 10, n / 10);
    } else if m < 10 {
        assert(decimal_text(m).len() == 1);
    } else {
        assert(decimal_text(n).len() == 1);
    }
}

/// Different numbers give different labels, so evidence labelled from offsets
/// whose ranges do not overlap carries distinct citations.
pub proof fn law_labels_are_distinct(prefix: char, m: nat, n: nat)
    requires
        m != n,
    ensures
        label_text(prefix, m) != label_text(prefix, n),
{
    if label_text(prefix, m) == label_text(prefix, n) {
        assert(label_text(prefix, m).drop_first() =~= decimal_text(m));
        assert(label_text(prefix, n).drop_first() =~= decimal_text(n));
        lemma_decimal_injective(m, n);
    }
}

/// `<prefix><n>`, the number in decimal.
pub open spec fn label_text(prefix: char, n: nat) -> Seq<char> {
    seq![prefix] + decimal_text(n)
}

/// A citation label such as `S12` or `G3`.
pub fn label(prefix: char, n: usize) -> (r: String)
    ensures
        r@ == label_text(prefix, n as nat),
{
    let mut s = String::new();
    push_char(&mut s, prefix);
    push_decimal(&mut s, n);
    s
}

/// A message fetched for retrieval, with what a citation shows of it.
pub struct RetrievedMessage {
    pub id: u128,
    pub sender: String,
    pub content: String,
    pub created_at: Timestamp,
    pub attachment_id: Option<u128>,
    pub attachment_access_key: Option<u128>,
    pub attachment_file_name: Option<String>,
    pub attachment_mime_type: Option<String>,
    pub attachment_size_bytes: Option<i64>,
    pub attachment_is_sensitive: Option<bool>,
    pub attachment_visual_text: Option<String>,
}

/// Index of the last row with message `id`, or -1.
pub open spec fn last_row_of(rows: Seq<RetrievedMessage>, id: u128) -> int
    decreases rows.len(),
{
    if rows.len() == 0 {
        -1
    } else if rows.last().id == id {
        rows.len() - 1
    } else {
        last_row_of(rows.drop_last(), id)
    }
}

/// Whether `id` occurs in `ids` before position `i`.
pub open spec fn requested_before(ids: Seq<u128>, i: int) -> bool {
    exists|j: int| 0 <= j < i && ids[j] == ids[i]
}

/// The authorized rows in the order the ids were asked for: for each id asked
/// for the first time, the last row with that id, if any.
pub open spec fn rows_in_request_order(rows: Seq<RetrievedMessage>, ids: Seq<u128>) -> Seq<int>
    decreases ids.len(),
{
    if ids.len() == 0 {
        Seq::empty()
    } else {
        let init = rows_in_request_order(rows, ids.drop_last());
        let i = ids.len() - 1;
        if !requested_before(ids, i) && last_row_of(rows, ids[i]) >= 0 {
            init.push(last_row_of(rows, ids[i]))
        } else {
            init
        }
    }
}

proof fn lemma_last_row_of_bounds(rows: Seq<RetrievedMessage>, id: u128)
    ensures
        -1 <= last_row_of(rows, id) < rows.len(),
        last_row_of(rows, id) >= 0 ==> rows[last_row_of(rows, id)].id == id,
        last_row_of(rows, id) < 0 ==> forall|k: int| 0 <= k < rows.len() ==> rows[k].id != id,
    decreases rows.len(),
{
    if rows.len() > 0 && rows.last().id != id {
        lemma_last_row_of_bounds(rows.drop_last(), id);
        assert forall|k: int| 0 <= k < rows.len() - 1 implies rows.drop_last()[k] == rows[k] by {}
    }
}

fn find_last_row(rows: &Vec<RetrievedMessage>, id: u128) -> (r: Option<usize>)
    ensures
        match r {
            Some(k) => k == last_row_of(rows@, id) && k < rows@.len(),
            None => last_row_of(rows@, id) < 0,
        },
{
    let mut k: usize = rows.len();
    assert(rows@.subrange(0, k as int) =~= rows@);
    while k > 0 && rows[k - 1].id != id
        invariant
            k <= rows.len(),
            last_row_of(rows@, id) == last_row_of(rows@.subrange(0, k as int), id),
        decreases k,
    {
        assert(rows@.subrange(0, k as int).drop_last() =~= rows@.subrange(0, k - 1));
        k -= 1;
    }
    if k == 0 {
        assert(rows@.subrange(0, 0).len() == 0);
        None
    } else {
        assert(rows@.subrange(0, k as int).last().id == id);
        Some(k - 1)
    }
}

fn copy_message(m: &RetrievedMessage) -> (r: RetrievedMessage)
    ensures
        r == *m,
{
    RetrievedMessage {
        id: m.id,
        sender: m.sender.clone(),
        content: m.content.clone(),
        created_at: m.created_at,
        attachment_id: m.attachment_id,
        attachment_access_key: m.attachment_access_key,
        attachment_file_name: match &m.attachment_file_name {
            Some(s) => Some(s.clone()),
            None => None,
        },
        attachment_mime_type: match &m.attachment_mime_type {
            Some(s) => Some(s.clone()),
            None => None,
        },
        attachment_size_bytes: m.attachment_size_bytes,
        attachment_is_sensitive: m.attachment_is_sensitive,
        attachment_visual_text: match &m.attachment_visual_text {
            Some(s) => Some(s.clone()),
            None => None,
        },
    }
}

/// Puts the authorized rows in the order their ids were asked for; an id asked
/// for twice is given once, and an id without a row is left out.
pub fn order_by_request(rows: &Vec<RetrievedMessage>, message_ids: &Vec<u128>) -> (r: Vec<RetrievedMessage>)
    ensures
        r@.len() == rows_in_request_order(rows@, message_ids@).len(),
        forall|i: int|
            0 <= i < r@.len() ==> #[trigger] r@[i] == rows@[rows_in_request_order(rows@, message_ids@)[i]],
{
    let mut out: Vec<RetrievedMessage> = Vec::new();
    let mut i: usize = 0;
    while i < message_ids.len()
        invariant
            i <= message_ids.len(),
            out@.len() == rows_in_request_order(rows@, message_ids@.subrange(0, i as int)).len(),
            forall|k: int|
                0 <= k < out@.len() ==> #[trigger] out@[k] == rows@[rows_in_request_order(
                    rows@,
                    message_ids@.subrange(0, i as int),
                )[k]],
            forall|k: int|
                0 <= k < rows_in_request_order(rows@, message_ids@.subrange(0, i as int)).len()
                    ==> 0 <= #[trigger] rows_in_request_order(rows@, message_ids@.subrange(0, i as int))[k]
                    < rows@.len(),
        decreases message_ids.len() - i,
    {
        let ghost prefix = message_ids@.subrange(0, i + 1);
        assert(prefix.drop_last() =~= message_ids@.subrange(0, i as int));
        let id = message_ids[i];
        let mut seen = false;
        let mut j: usize = 0;
        while j < i
            invariant
                j <= i < message_ids.len(),
                id == message_ids@[i as int],
                seen <==> exists|t: int| 0 <= t < j && message_ids@[t] == id,
            decreases i - j,
        {
            if message_ids[j] == id {
                seen = true;
            }
            j += 1;
        }
        assert(seen <==> requested_before(prefix, i as int)) by {
            if seen {
                let t = choose|t: int| 0 <= t < i && message_ids@[t] == id;
                assert(prefix[t] == prefix[i as int]);
            }
            if requested_before(prefix, i as int) {
                let t = choose|t: int| 0 <= t < i && prefix[t] == prefix[i as int];
                assert(message_ids@[t] == id);
            }
        }
        if !seen {
            match find_last_row(rows, id) {
                Some(k) => {
                    out.push(copy_message(&rows[k]));
                },
                None => {},
            }
        }
        i += 1;
    }
    assert(message_ids@.subrange(0, message_ids.len() as int) =~= message_ids@);
    out
}

/// Whether `v` holds `x`.
pub fn contains_id(v: &Vec<u128>, x: u128) -> (b: bool)
    ensures
        b == v@.contains(x),
{
    let mut i: usize = 0;
    while i < v.len()
        invariant
            i <= v.len(),
            forall|k: int| 0 <= k < i ==> v@[k] != x,
        decreases v.len() - i,
    {
        if v[i] == x {
            assert(v@[i as int] == x);
            return true;
        }
        i += 1;
    }
    false
}

/// The attachment details a citation carries.
pub struct CitationAttachment {
    pub id: u128,
    pub file_name: String,
    pub mime_type: String,
    pub size_bytes: i64,
    pub download_url: String,
    pub is_sensitive: bool,
}

/// A retrieved message prepared as evidence: its citation label, where it came
/// from, and the text the model reads.
pub struct DocumentDraft {
    pub source: String,
    pub message_id: u128,
    pub room_id: u128,
    pub sender: String,
    pub sent_at: Timestamp,
    pub page_content: String,
    pub attachment: Option<CitationAttachment>,
}

/// The longest evidence text given to the model.
pub const MAX_DOCUMENT_CHARS: usize = 2000;

/// The text a retrieved message contributes: its content, or its file name when
/// the content is blank, followed by the image's visual description when there
/// is one; cut to 2000 characters.
pub open spec fn document_text(content: Seq<char>, file_name: Option<Seq<char>>, visual: Option<Seq<char>>) -> Seq<char> {
    let base = if trim(content).len() == 0 {
        match file_name {
            Some(f) => f,
            None => Seq::empty(),
        }
    } else {
        content
    };
    let full = match visual {
        Some(v) => if trim(v).len() > 0 {
            if base.len() > 0 {
                base + "\n\nVisual projection:\n"@ + v
            } else {
                v
            }
        } else {
            base
        },
        None => base,
    };
    truncated_with_ellipsis(full, MAX_DOCUMENT_CHARS as int)
}

fn is_blank(s: &str) -> (b: bool)
    ensures
        b == (trim(s@).len() == 0),
{
    let v = to_chars(s);
    let (a, e) = trim_bounds(&v);
    proof {
        crate::text::lemma_trim_bounds(v@);
    }
    a == e
}

/// Builds the evidence text of a retrieved message.
pub fn document_content(content: &str, file_name: Option<&str>, visual: Option<&str>) -> (r: String)
    ensures
        r@ == document_text(
            content@,
            match file_name {
                Some(f) => Some(f@),
                None => None,
            },
            match visual {
                Some(v) => Some(v@),
                None => None,
            },
        ),
{
    let mut text = if is_blank(content) {
        match file_name {
            Some(f) => f.to_owned(),
            None => String::new(),
        }
    } else {
        content.to_owned()
    };
    match visual {
        Some(v) => {
            if !is_blank(v) {
                if text.as_str().unicode_len() > 0 {
                    text.append("\n\nVisual projection:\n");
                }
                text.append(v);
            }
        },
        None => {},
    }
    truncate_chars(text.as_str(), MAX_DOCUMENT_CHARS)
}

pub open spec fn opt_view(o: Option<String>) -> Option<Seq<char>> {
    match o {
        Some(s) => Some(s@),
        None => None,
    }
}

/// The messages that are not excluded, in order.
pub open spec fn not_excluded(messages: Seq<RetrievedMessage>, excluded: Seq<u128>) -> Seq<RetrievedMessage>
    decreases messages.len(),
{
    if messages.len() == 0 {
        Seq::empty()
    } else {
        let init = not_excluded(messages.drop_last(), excluded);
        if excluded.contains(messages.last().id) {
            init
        } else {
            init.push(messages.last())
        }
    }
}

/// Whether a message carries a complete attachment.
pub open spec fn has_attachment(m: RetrievedMessage) -> bool {
    m.attachment_id is Some && m.attachment_access_key is Some && m.attachment_file_name is Some
        && m.attachment_mime_type is Some && m.attachment_size_bytes is Some
}

/// The evidence a message becomes under a given label.
pub open spec fn draft_of(room_id: u128, m: RetrievedMessage, n: nat, d: DocumentDraft) -> bool {
    &&& d.source@ == label_text('S', n)
    &&& d.message_id == m.id
    &&& d.room_id == room_id
    &&& d.sender@ == m.sender@
    &&& d.sent_at == m.created_at
    &&& d.page_content@ == document_text(
        m.content@,
        opt_view(m.attachment_file_name),
        opt_view(m.attachment_visual_text),
    )
    &&& d.attachment is Some <==> has_attachment(m)
    &&& d.attachment matches Some(a) ==> {
        &&& a.id == m.attachment_id->0
        &&& Some(a.file_name@) == opt_view(m.attachment_file_name)
        &&& Some(a.mime_type@) == opt_view(m.attachment_mime_type)
        &&& a.size_bytes == m.attachment_size_bytes->0
        &&& a.download_url@ == download_url_text(a.id, m.attachment_access_key->0)
        &&& a.is_sensitive == (m.attachment_is_sensitive == Some(true))
    }
}

fn opt_str(o: &Option<String>) -> (r: Option<&str>)
    ensures
        match r {
            Some(x) => opt_view(*o) == Some(x@),
            None => o is None,
        },
{
    match o {
        Some(s) => Some(s.as_str()),
        None => None,
    }
}

fn draft(room_id: u128, m: &RetrievedMessage, n: usize) -> (d: DocumentDraft)
    ensures
        draft_of(room_id, *m, n as nat, d),
{
    let attachment = match (
        m.attachment_id,
        m.attachment_access_key,
        &m.attachment_file_name,
        &m.attachment_mime_type,
        m.attachment_size_bytes,
    ) {
        (Some(id), Some(key), Some(file_name), Some(mime_type), Some(size_bytes)) => Some(
            CitationAttachment {
                id,
                file_name: file_name.clone(),
                mime_type: mime_type.clone(),
                size_bytes,
                download_url: attachment_download_url(id, key),
                is_sensitive: match m.attachment_is_sensitive {
                    Some(b) => b,
                    None => false,
                },
            },
        ),
        _ => None,
    };
    DocumentDraft {
        source: label('S', n),
        message_id: m.id,
        room_id,
        sender: m.sender.clone(),
        sent_at: m.created_at,
        page_content: document_content(
            m.content.as_str(),
            opt_str(&m.attachment_file_name),
            opt_str(&m.attachment_visual_text),
        ),
        attachment,
    }
}

/// Turns authorized messages into evidence: excluded messages (those already in
/// the conversation window) are dropped, at most `limit` are kept, and they are
/// labelled `S1`, `S2`, ... in order.
pub fn documents_from_messages(room_id: u128, messages: &Vec<RetrievedMessage>, excluded: &Vec<u128>, limit: usize) -> (r: Vec<DocumentDraft>)
    ensures
        r@.len() == first_chars_len(not_excluded(messages@, excluded@).len() as int, limit as int),
        forall|i: int|
            0 <= i < r@.len() ==> draft_of(
                room_id,
                not_excluded(messages@, excluded@)[i],
                (i + 1) as nat,
                #[trigger] r@[i],
            ),
{
    let mut out: Vec<DocumentDraft> = Vec::new();
    let mut i: usize = 0;
    let ghost mut kept: Seq<RetrievedMessage> = Seq::empty();
    while i < messages.len()
        invariant
            i <= messages.len(),
            kept == not_excluded(messages@.subrange(0, i as int), excluded@),
            out@.len() == first_chars_len(kept.len() as int, limit as int),
            out@.len() <= limit,
            forall|k: int| 0 <= k < out@.len() ==> draft_of(room_id, kept[k], (k + 1) as nat, #[trigger] out@[k]),
        decreases messages.len() - i,
    {
        assert(messages@.subrange(0, i + 1).drop_last() =~= messages@.subrange(0, i as int));
        let m = &messages[i];
        if !contains_id(excluded, m.id) {
            proof {
                kept = kept.push(messages@[i as int]);
            }
            if out.len() < limit {
                let n = out.len() + 1;
                out.push(draft(room_id, m, n));
            }
        }
        i += 1;
    }
    assert(messages@.subrange(0, messages.len() as int) =~= messages@);
    out
}

/// `n` held at most at `limit`.
pub open spec fn first_chars_len(n: int, limit: int) -> int {
    if n <= limit {
        n
    } else {
        limit
    }
}

/// Relabels evidence `S<offset + 1>`, `S<offset + 2>`, ... so that evidence
/// gathered in parallel gets labels that do not overlap.
pub fn relabel_documents(documents: &mut Vec<DocumentDraft>, source_offset: usize)
    requires
        source_offset + old(documents)@.len() < usize::MAX,
    ensures
        final(documents)@.len() == old(documents)@.len(),
        forall|i: int|
            0 <= i < final(documents)@.len() ==> {
                &&& (#[trigger] final(documents)@[i]).source@ == label_text(
                    'S',
                    (source_offset + i + 1) as nat,
                )
                &&& final(documents)@[i].message_id == old(documents)@[i].message_id
                &&& final(documents)@[i].room_id == old(documents)@[i].room_id
                &&& final(documents)@[i].sender == old(documents)@[i].sender
                &&& final(documents)@[i].sent_at == old(documents)@[i].sent_at
                &&& final(documents)@[i].page_content == old(documents)@[i].page_content
                &&& final(documents)@[i].attachment == old(documents)@[i].attachment
            },
{
    let ghost before = documents@;
    let n = documents.len();
    let mut rest: Vec<DocumentDraft> = Vec::new();
    core::mem::swap(&mut rest, documents);
    let mut out: Vec<DocumentDraft> = Vec::new();
    let mut i: usize = 0;
    while i < n
        invariant
            n == before.len(),
            source_offset + n < usize::MAX,
            i <= n,
            rest@ == before.subrange(i as int, n as int),
            out@.len() == i,
            forall|k: int|
                0 <= k < i ==> {
                    &&& (#[trigger] out@[k]).source@ == label_text('S', (source_offset + k + 1) as nat)
                    &&& out@[k].message_id == before[k].message_id
                    &&& out@[k].room_id == before[k].room_id
                    &&& out@[k].sender == before[k].sender
                    &&& out@[k].sent_at == before[k].sent_at
                    &&& out@[k].page_content == before[k].page_content
                    &&& out@[k].attachment == before[k].attachment
                },
        decreases n - i,
    {
        let d = rest.remove(0);
        out.push(
            DocumentDraft {
                source: label('S', source_offset + i + 1),
                message_id: d.message_id,
                room_id: d.room_id,
                sender: d.sender,
                sent_at: d.sent_at,
                page_content: d.page_content,
                attachment: d.attachment,
            },
        );
        i += 1;
        assert(rest@ =~= before.subrange(i as int, n as int));
    }
    *documents = out;
}

/// An entity of a room's knowledge graph.
pub struct GraphNode {
    pub id: u128,
    pub name: String,
    pub summary: String,
    pub labels: Vec<String>,
}

/// A relation between two entities, derived from some messages (its episodes).
pub struct GraphFact {
    pub id: u128,
    pub name: String,
    pub fact: String,
    pub source_node_id: u128,
    pub target_node_id: u128,
    pub episode_ids: Vec<u128>,
    pub valid_at: Option<Timestamp>,
    pub invalid_at: Option<Timestamp>,
    pub created_at: Timestamp,
    pub expired_at: Option<Timestamp>,
}

/// The knowledge graph of a room.
pub struct GraphSnapshot {
    pub room_id: u128,
    pub nodes: Vec<GraphNode>,
    pub facts: Vec<GraphFact>,
    pub truncated: bool,
}

/// Whether every message a fact rests on may be shown: it rests on at least one
/// message, and each is allowed and not excluded.
pub open spec fn sources_allowed(ids: Seq<u128>, allowed: Seq<u128>, excluded: Seq<u128>) -> bool {
    &&& ids.len() > 0
    &&& forall|i: int| 0 <= i < ids.len() ==> allowed.contains(#[trigger] ids[i]) && !excluded.contains(ids[i])
}

/// Whether all of `ids` are allowed and none is excluded.
pub fn all_sources_allowed(ids: &Vec<u128>, allowed: &Vec<u128>, excluded: &Vec<u128>) -> (b: bool)
    ensures
        b == sources_allowed(ids@, allowed@, excluded@),
{
    if ids.len() == 0 {
        return false;
    }
    let mut i: usize = 0;
    while i < ids.len()
        invariant
            i <= ids.len(),
            forall|k: int| 0 <= k < i ==> allowed@.contains(#[trigger] ids@[k]) && !excluded@.contains(ids@[k]),
        decreases ids.len() - i,
    {
        if !contains_id(allowed, ids[i]) || contains_id(excluded, ids[i]) {
            assert(!(allowed@.contains(ids@[i as int]) && !excluded@.contains(ids@[i as int])));
            return false;
        }
        i += 1;
    }
    true
}

/// Graph evidence comes only from facts whose messages the member may all read
/// and that are not already in the conversation window, and every such fact is
/// kept, in order.
pub proof fn law_evidence_only_from_readable_messages(facts: Seq<GraphFact>, allowed: Seq<u128>, excluded: Seq<u128>)
    ensures
        forall|i: int|
            0 <= i < authorized_facts(facts, allowed, excluded).len() ==> sources_allowed(
                (#[trigger] authorized_facts(facts, allowed, excluded)[i]).episode_ids@,
                allowed,
                excluded,
            ),
        forall|j: int|
            0 <= j < facts.len() && sources_allowed(facts[j].episode_ids@, allowed, excluded)
                ==> authorized_facts(facts, allowed, excluded).contains(#[trigger] facts[j]),
        authorized_facts(facts, allowed, excluded).len() <= facts.len(),
    decreases facts.len(),
{
    if facts.len() > 0 {
        let init = facts.drop_last();
        law_evidence_only_from_readable_messages(init, allowed, excluded);
        let a = authorized_facts(init, allowed, excluded);
        let r = authorized_facts(facts, allowed, excluded);
        assert forall|j: int|
            0 <= j < facts.len() && sources_allowed(facts[j].episode_ids@, allowed, excluded)
                implies r.contains(#[trigger] facts[j]) by {
            if j < facts.len() - 1 {
                assert(init[j] == facts[j]);
                assert(a.contains(init[j]));
                let k = choose|k: int| 0 <= k < a.len() && a[k] == init[j];
                assert(r[k] == a[k]);
            } else {
                assert(r[a.len() as int] == facts[j]);
            }
        }
        assert forall|i: int| 0 <= i < r.len() implies sources_allowed(
            (#[trigger] r[i]).episode_ids@,
            allowed,
            excluded,
        ) by {
            if i < a.len() {
                assert(r[i] == a[i]);
            }
        }
    }
}

/// A graph fact prepared as evidence.
pub struct FactEvidence {
    pub source: String,
    pub fact_id: u128,
    pub relation: String,
    pub fact: String,
    pub message_ids: Vec<u128>,
    pub valid_at: Option<String>,
    pub invalid_at: Option<String>,
}

/// The facts whose sources may all be shown, in order.
pub open spec fn authorized_facts(facts: Seq<GraphFact>, allowed: Seq<u128>, excluded: Seq<u128>) -> Seq<GraphFact>
    decreases facts.len(),
{
    if facts.len() == 0 {
        Seq::empty()
    } else {
        let init = authorized_facts(facts.drop_last(), allowed, excluded);
        if sources_allowed(facts.last().episode_ids@, allowed, excluded) {
            init.push(facts.last())
        } else {
            init
        }
    }
}

pub open spec fn opt_time_text(t: Option<Timestamp>) -> Option<Seq<char>> {
    match t {
        Some(at) => rfc3339_offset_text(at),
        None => None,
    }
}

/// The evidence a fact becomes under label `G<n>`.
pub open spec fn evidence_of(f: GraphFact, n: nat, e: FactEvidence) -> bool {
    &&& e.source@ == label_text('G', n)
    &&& e.fact_id == f.id
    &&& e.relation@ == first_chars(f.name@, MAX_FACT_CHARS as int)
    &&& e.fact@ == first_chars(f.fact@, MAX_FACT_CHARS as int)
    &&& e.message_ids@ == f.episode_ids@
    &&& opt_view(e.valid_at) == opt_time_text(f.valid_at)
    &&& opt_view(e.invalid_at) == opt_time_text(f.invalid_at)
}

fn time_text(t: Option<Timestamp>) -> (r: Option<String>)
    ensures
        opt_view(r) == opt_time_text(t),
{
    match t {
        Some(at) => format_rfc3339_offset(at),
        None => None,
    }
}

/// Keeps the facts whose sources the member may all read (and that do not rest
/// on excluded messages), labelled `G1`, `G2`, ... in order.
pub fn authorized_evidence(facts: Vec<GraphFact>, allowed: &Vec<u128>, excluded: &Vec<u128>) -> (r: Vec<FactEvidence>)
    ensures
        r@.len() == authorized_facts(facts@, allowed@, excluded@).len(),
        forall|i: int|
            0 <= i < r@.len() ==> evidence_of(
                authorized_facts(facts@, allowed@, excluded@)[i],
                (i + 1) as nat,
                #[trigger] r@[i],
            ),
{
    let ghost all = facts@;
    let n = facts.len();
    let mut rest = facts;
    let mut out: Vec<FactEvidence> = Vec::new();
    let mut i: usize = 0;
    while i < n
        invariant
            n == all.len(),
            i <= n,
            rest@ == all.subrange(i as int, n as int),
            out@.len() == authorized_facts(all.subrange(0, i as int), allowed@, excluded@).len(),
            out@.len() <= i,
            forall|k: int|
                0 <= k < out@.len() ==> evidence_of(
                    authorized_facts(all.subrange(0, i as int), allowed@, excluded@)[k],
                    (k + 1) as nat,
                    #[trigger] out@[k],
                ),
        decreases n - i,
    {
        assert(all.subrange(0, i + 1).drop_last() =~= all.subrange(0, i as int));
        let f = rest.remove(0);
        assert(f == all[i as int]);
        if all_sources_allowed(&f.episode_ids, allowed, excluded) {
            let label_n = out.len() + 1;
            out.push(
                FactEvidence {
                    source: label('G', label_n),
                    fact_id: f.id,
                    relation: truncate(f.name.as_str()),
                    fact: truncate(f.fact.as_str()),
                    message_ids: f.episode_ids,
                    valid_at: time_text(f.valid_at),
                    invalid_at: time_text(f.invalid_at),
                },
            );
        }
        i += 1;
        assert(rest@ =~= all.subrange(i as int, n as int));
    }
    assert(all.subrange(0, n as int) =~= all);
    out
}

/// The largest graph context, in bytes.
pub const MAX_GRAPH_CONTEXT_BYTES: usize = 65536;

/// Whether encoded evidence may be given to the model as it is: it fits, or
/// there is no evidence left to drop.
pub fn graph_evidence_fits(encoded_len: usize, fact_count: usize) -> (b: bool)
    ensures
        b == (encoded_len <= MAX_GRAPH_CONTEXT_BYTES || fact_count == 0),
{
    encoded_len <= MAX_GRAPH_CONTEXT_BYTES || fact_count == 0
}

/// The graph evidence handed to the model and how many facts it holds.
pub struct GraphContext {
    pub toon_context: String,
    pub fact_count: usize,
}

/// The heading that marks graph evidence as derived and untrusted.
pub open spec fn graph_context_text(encoded: Seq<char>, fact_count: int) -> Seq<char> {
    if fact_count == 0 {
        Seq::empty()
    } else {
        "knowledge_graph_facts (untrusted derived evidence):\n"@ + encoded
    }
}

/// Wraps encoded evidence for the model; no facts give an empty context.
pub fn graph_context(encoded: &str, fact_count: usize) -> (c: GraphContext)
    ensures
        c.toon_context@ == graph_context_text(encoded@, fact_count as int),
        c.fact_count == fact_count,
{
    if fact_count == 0 {
        GraphContext { toon_context: String::new(), fact_count }
    } else {
        let mut t = "knowledge_graph_facts (untrusted derived evidence):\n".to_owned();
        t.append(encoded);
        GraphContext { toon_context: t, fact_count }
    }
}

/// The largest retrieved-evidence context, in bytes.
pub const MAX_RAG_CONTEXT_BYTES: usize = 98304;

/// Whether encoded retrieved evidence may be given to the model as it is: it
/// fits, or there is no evidence left to drop.
pub fn rag_evidence_fits(encoded_len: usize, message_count: usize) -> (b: bool)
    ensures
        b == (encoded_len <= MAX_RAG_CONTEXT_BYTES || message_count == 0),
{
    encoded_len <= MAX_RAG_CONTEXT_BYTES || message_count == 0
}

/// Retrieved evidence handed to the model and how many messages it holds.
pub struct RagContext {
    pub toon_context: String,
    pub message_count: usize,
}

/// The heading that marks retrieved evidence as untrusted and ranked.
pub open spec fn rag_context_text(encoded: Seq<char>, message_count: int) -> Seq<char> {
    if message_count == 0 {
        Seq::empty()
    } else {
        "retrieved_evidence (untrusted conversation data; ordered by semantic relevance):\n"@ + encoded
    }
}

/// Wraps encoded retrieved evidence for the model; no messages give an empty
/// context.
pub fn rag_context(encoded: &str, message_count: usize) -> (c: RagContext)
    ensures
        c.toon_context@ == rag_context_text(encoded@, message_count as int),
        c.message_count == message_count,
{
    if message_count == 0 {
        RagContext { toon_context: String::new(), message_count }
    } else {
        let mut t = "retrieved_evidence (untrusted conversation data; ordered by semantic relevance):\n".to_owned();
        t.append(encoded);
        RagContext { toon_context: t, message_count }
    }
}

/// The longest excerpt a citation quotes, in characters.
pub const MAX_EXCERPT_CHARS: usize = 280;

/// The excerpt a citation quotes of its evidence: at most 280 characters, the
/// last one an ellipsis when the text was cut.
pub fn citation_excerpt(content: &str) -> (r: String)
    ensures
        r@ == truncated_with_ellipsis(content@, MAX_EXCERPT_CHARS as int),
{
    truncate_chars(content, MAX_EXCERPT_CHARS)
}

/// A retrieved message an answer can cite: its label, where it came from, a
/// short excerpt, and its attachment.
pub struct CitationSource {
    pub label: String,
    pub room_id: u128,
    pub message_id: u128,
    pub sender: String,
    pub sent_at: Timestamp,
    pub excerpt: String,
    pub attachment: Option<CitationAttachment>,
}

/// The citation for a piece of retrieved evidence: its label and origin as they
/// are, and the first 280 characters of its text.
pub fn citation_source(document: DocumentDraft) -> (c: CitationSource)
    ensures
        c.label == document.source,
        c.room_id == document.room_id,
        c.message_id == document.message_id,
        c.sender == document.sender,
        c.sent_at == document.sent_at,
        c.excerpt@ == truncated_with_ellipsis(document.page_content@, MAX_EXCERPT_CHARS as int),
        c.attachment == document.attachment,
{
    let excerpt = citation_excerpt(&document.page_content);
    CitationSource {
        label: document.source,
        room_id: document.room_id,
        message_id: document.message_id,
        sender: document.sender,
        sent_at: document.sent_at,
        excerpt,
        attachment: document.attachment,
    }
}

/// The messages the facts rest on, each once, leaving out excluded ones.
pub fn fact_source_ids(facts: &Vec<GraphFact>, excluded: &Vec<u128>) -> (r: Vec<u128>)
    ensures
        r@.no_duplicates(),
        forall|x: u128|
            r@.contains(x) <==> !excluded@.contains(x) && exists|i: int|
                0 <= i < facts@.len() && (#[trigger] facts@[i]).episode_ids@.contains(x),
{
    let mut out: Vec<u128> = Vec::new();
    let mut i: usize = 0;
    while i < facts.len()
        invariant
            i <= facts.len(),
            out@.no_duplicates(),
            forall|x: u128|
                out@.contains(x) <==> !excluded@.contains(x) && exists|k: int|
                    0 <= k < i && (#[trigger] facts@[k]).episode_ids@.contains(x),
        decreases facts.len() - i,
    {
        let ids = &facts[i].episode_ids;
        let mut j: usize = 0;
        while j < ids.len()
            invariant
                i < facts.len(),
                ids@ == facts@[i as int].episode_ids@,
                j <= ids.len(),
                out@.no_duplicates(),
                forall|x: u128|
                    out@.contains(x) <==> !excluded@.contains(x) && ((exists|k: int|
                        0 <= k < i && (#[trigger] facts@[k]).episode_ids@.contains(x)) || exists|
                        t: int,
                    | 0 <= t < j && ids@[t] == x),
            decreases ids.len() - j,
        {
            let ghost old_out = out@;
            let x = ids[j];
            let skip = contains_id(excluded, x) || contains_id(&out, x);
            if !skip {
                out.push(x);
            }
            proof {
                assert forall|y: u128| old_out.contains(y) implies out@.contains(y) by {
                    let idx = choose|idx: int| 0 <= idx < old_out.len() && old_out[idx] == y;
                    assert(out@[idx] == y);
                }
                if !skip {
                    assert(out@[out@.len() - 1] == x);
                    assert forall|a: int, b: int| 0 <= a < b < out@.len() implies out@[a] != out@[b] by {
                        if b == out@.len() - 1 {
                            assert(old_out[a] == out@[a]);
                        } else {
                            assert(old_out[a] == out@[a] && old_out[b] == out@[b]);
                        }
                    }
                    assert forall|y: u128| out@.contains(y) implies old_out.contains(y) || y == x by {
                        let idx = choose|idx: int| 0 <= idx < out@.len() && out@[idx] == y;
                        if idx < old_out.len() {
                            assert(old_out[idx] == y);
                        }
                    }
                }
                assert forall|y: u128|
                    out@.contains(y) <==> !excluded@.contains(y) && ((exists|k: int|
                        0 <= k < i && (#[trigger] facts@[k]).episode_ids@.contains(y)) || exists|
                        t: int,
                    | 0 <= t < j + 1 && ids@[t] == y) by {
                    let in_prior = exists|k: int|
                        0 <= k < i && (#[trigger] facts@[k]).episode_ids@.contains(y);
                    if out@.contains(y) {
                        if old_out.contains(y) {
                            if !in_prior {
                                let t = choose|t: int| 0 <= t < j && ids@[t] == y;
                                assert(0 <= t < j + 1 && ids@[t] == y);
                            }
                        } else {
                            assert(y == x);
                            assert(ids@[j as int] == y);
                        }
                    }
                    if !excluded@.contains(y) && (in_prior || exists|t: int|
                        0 <= t < j + 1 && ids@[t] == y) {
                        if in_prior {
                            assert(old_out.contains(y));
                        } else {
                            let t = choose|t: int| 0 <= t < j + 1 && ids@[t] == y;
                            if t < j {
                                assert(old_out.contains(y));
                            } else {
                                assert(y == x);
                                if skip {
                                    assert(old_out.contains(y));
                                }
                            }
                        }
                    }
                }
            }
            j += 1;
        }
        proof {
            assert forall|x: u128|
                out@.contains(x) <==> !excluded@.contains(x) && exists|k: int|
                    0 <= k < i + 1 && (#[trigger] facts@[k]).episode_ids@.contains(x) by {
                if exists|t: int| 0 <= t < ids@.len() && ids@[t] == x {
                    let t = choose|t: int| 0 <= t < ids@.len() && ids@[t] == x;
                    assert(facts@[i as int].episode_ids@.contains(x));
                }
                if facts@[i as int].episode_ids@.contains(x) {
                    let t = choose|t: int| 0 <= t < ids@.len() && ids@[t] == x;
                }
            }
        }
        i += 1;
    }
    out
}

/// The facts a member may see in a room's graph: those resting on at least one
/// message, all of which the member may read.
pub open spec fn visible_facts(facts: Seq<GraphFact>, allowed: Seq<u128>) -> Seq<GraphFact> {
    authorized_facts(facts, allowed, Seq::empty())
}

/// Whether a node is an end of one of the facts.
pub open spec fn node_referenced(id: u128, facts: Seq<GraphFact>) -> bool {
    exists|i: int| 0 <= i < facts.len() && (facts[i].source_node_id == id || facts[i].target_node_id == id)
}

/// The nodes that remain, in order.
pub open spec fn referenced_nodes(nodes: Seq<GraphNode>, facts: Seq<GraphFact>) -> Seq<GraphNode>
    decreases nodes.len(),
{
    if nodes.len() == 0 {
        Seq::empty()
    } else {
        let init = referenced_nodes(nodes.drop_last(), facts);
        if node_referenced(nodes.last().id, facts) {
            init.push(nodes.last())
        } else {
            init
        }
    }
}

fn referenced(id: u128, facts: &Vec<GraphFact>) -> (b: bool)
    ensures
        b == node_referenced(id, facts@),
{
    let mut i: usize = 0;
    while i < facts.len()
        invariant
            i <= facts.len(),
            forall|k: int| 0 <= k < i ==> !(facts@[k].source_node_id == id || facts@[k].target_node_id == id),
        decreases facts.len() - i,
    {
        if facts[i].source_node_id == id || facts[i].target_node_id == id {
            return true;
        }
        i += 1;
    }
    false
}

/// What a member is shown of a room's graph: only facts whose source messages
/// the member may all read, only the nodes those facts connect, and no node
/// summaries (they may draw on messages the member cannot read).
pub fn authorized_snapshot(snapshot: GraphSnapshot, allowed: &Vec<u128>) -> (r: GraphSnapshot)
    ensures
        r.room_id == snapshot.room_id,
        r.truncated == snapshot.truncated,
        r.facts@ == visible_facts(snapshot.facts@, allowed@),
        r.nodes@.len() == referenced_nodes(snapshot.nodes@, r.facts@).len(),
        forall|i: int|
            0 <= i < r.nodes@.len() ==> {
                let n = referenced_nodes(snapshot.nodes@, r.facts@)[i];
                &&& (#[trigger] r.nodes@[i]).id == n.id
                &&& r.nodes@[i].name == n.name
                &&& r.nodes@[i].summary@.len() == 0
                &&& r.nodes@[i].labels == n.labels
            },
{
    let no_exclusions: Vec<u128> = Vec::new();
    let ghost all = snapshot.facts@;
    let nf = snapshot.facts.len();
    let mut rest = snapshot.facts;
    let mut facts: Vec<GraphFact> = Vec::new();
    let mut i: usize = 0;
    while i < nf
        invariant
            nf == all.len(),
            no_exclusions@ == Seq::<u128>::empty(),
            i <= nf,
            rest@ == all.subrange(i as int, nf as int),
            facts@ == authorized_facts(all.subrange(0, i as int), allowed@, Seq::empty()),
        decreases nf - i,
    {
        assert(all.subrange(0, i + 1).drop_last() =~= all.subrange(0, i as int));
        let f = rest.remove(0);
        assert(f == all[i as int]);
        if all_sources_allowed(&f.episode_ids, allowed, &no_exclusions) {
            facts.push(f);
        }
        i += 1;
        assert(rest@ =~= all.subrange(i as int, nf as int));
    }
    assert(all.subrange(0, nf as int) =~= all);
    let ghost nodes_all = snapshot.nodes@;
    let nn = snapshot.nodes.len();
    let mut nodes_rest = snapshot.nodes;
    let mut nodes: Vec<GraphNode> = Vec::new();
    let mut j: usize = 0;
    while j < nn
        invariant
            nn == nodes_all.len(),
            j <= nn,
            nodes_rest@ == nodes_all.subrange(j as int, nn as int),
            nodes@.len() == referenced_nodes(nodes_all.subrange(0, j as int), facts@).len(),
            forall|k: int|
                0 <= k < nodes@.len() ==> {
                    let n = referenced_nodes(nodes_all.subrange(0, j as int), facts@)[k];
                    &&& (#[trigger] nodes@[k]).id == n.id
                    &&& nodes@[k].name == n.name
                    &&& nodes@[k].summary@.len() == 0
                    &&& nodes@[k].labels == n.labels
                },
        decreases nn - j,
    {
        assert(nodes_all.subrange(0, j + 1).drop_last() =~= nodes_all.subrange(0, j as int));
        let node = nodes_rest.remove(0);
        assert(node == nodes_all[j as int]);
        if referenced(node.id, &facts) {
            nodes.push(GraphNode { id: node.id, name: node.name, summary: String::new(), labels: node.labels });
        }
        j += 1;
        assert(nodes_rest@ =~= nodes_all.subrange(j as int, nn as int));
    }
    assert(nodes_all.subrange(0, nn as int) =~= nodes_all);
    GraphSnapshot { room_id: snapshot.room_id, nodes, facts, truncated: snapshot.truncated }
}

/// A pending change of a message's graph episode.
pub struct GraphJob {
    pub message_id: u128,
    pub room_id: u128,
    pub operation: String,
    pub attempt_count: i64,
    pub generation: i64,
}

/// A message as the graph worker reads it (absent once recalled or blank).
pub struct GraphMessage {
    pub id: u128,
    pub room_id: u128,
    pub sender: String,
    pub content: String,
    pub created_at: Timestamp,
}

/// What an outbox worker does for a job.
#[derive(Clone, Copy, Debug, PartialEq, Eq, Structural)]
pub enum OutboxAction {
    /// Remove the message from the index or graph.
    Delete,
    /// Add or replace the message.
    Upsert,
    /// The message no longer matches the job; fail the job.
    SourceChanged,
}

/// A graph job deletes when asked to or when the message is gone; it fails when
/// the message moved or its id changed; otherwise it upserts.
pub fn graph_job_action(job: &GraphJob, message: &Option<GraphMessage>) -> (a: OutboxAction)
    ensures
        a == if job.operation@ == "delete"@ || message is None {
            OutboxAction::Delete
        } else if message->0.room_id != job.room_id || message->0.id != job.message_id {
            OutboxAction::SourceChanged
        } else {
            OutboxAction::Upsert
        },
{
    if crate::text::str_eq(job.operation.as_str(), "delete") {
        return OutboxAction::Delete;
    }
    match message {
        None => OutboxAction::Delete,
        Some(m) => if m.room_id != job.room_id || m.id != job.message_id {
            OutboxAction::SourceChanged
        } else {
            OutboxAction::Upsert
        },
    }
}

/// A message-index job deletes when asked to or when the message is gone, and
/// upserts otherwise.
pub fn index_job_action(operation: &str, message_present: bool) -> (a: OutboxAction)
    ensures
        a == if operation@ == "delete"@ || !message_present {
            OutboxAction::Delete
        } else {
            OutboxAction::Upsert
        },
{
    if crate::text::str_eq(operation, "delete") || !message_present {
        OutboxAction::Delete
    } else {
        OutboxAction::Upsert
    }
}

/// The rooms of the jobs, each once, in order of first appearance.
pub open spec fn room_order(jobs: Seq<GraphJob>) -> Seq<u128>
    decreases jobs.len(),
{
    if jobs.len() == 0 {
        Seq::empty()
    } else {
        let init = room_order(jobs.drop_last());
        if init.contains(jobs.last().room_id) {
            init
        } else {
            init.push(jobs.last().room_id)
        }
    }
}

/// The jobs of one room, in order.
pub open spec fn jobs_of_room(jobs: Seq<GraphJob>, room_id: u128) -> Seq<GraphJob>
    decreases jobs.len(),
{
    if jobs.len() == 0 {
        Seq::empty()
    } else {
        let init = jobs_of_room(jobs.drop_last(), room_id);
        if jobs.last().room_id == room_id {
            init.push(jobs.last())
        } else {
            init
        }
    }
}

proof fn lemma_room_order(jobs: Seq<GraphJob>)
    ensures
        room_order(jobs).no_duplicates(),
        forall|r: u128|
            room_order(jobs).contains(r) <==> exists|i: int| 0 <= i < jobs.len() && #[trigger] jobs[i].room_id == r,
    decreases jobs.len(),
{
    if jobs.len() > 0 {
        let init = jobs.drop_last();
        lemma_room_order(init);
        let o = room_order(init);
        let last = jobs.last().room_id;
        let ro = room_order(jobs);
        assert forall|r: u128|
            ro.contains(r) <==> exists|i: int| 0 <= i < jobs.len() && #[trigger] jobs[i].room_id == r by {
            if exists|i: int| 0 <= i < jobs.len() && #[trigger] jobs[i].room_id == r {
                let i = choose|i: int| 0 <= i < jobs.len() && #[trigger] jobs[i].room_id == r;
                if i < jobs.len() - 1 {
                    assert(init[i].room_id == r);
                    assert(o.contains(r));
                    let k = choose|k: int| 0 <= k < o.len() && o[k] == r;
                    assert(ro[k] == r);
                } else if o.contains(last) {
                    assert(ro == o);
                } else {
                    assert(ro[o.len() as int] == r);
                }
            }
            if ro.contains(r) {
                let k = choose|k: int| 0 <= k < ro.len() && ro[k] == r;
                if k < o.len() {
                    assert(o[k] == r);
                    assert(o.contains(r));
                    let i = choose|i: int| 0 <= i < init.len() && #[trigger] init[i].room_id == r;
                    assert(jobs[i].room_id == r);
                } else {
                    assert(jobs[jobs.len() - 1].room_id == r);
                }
            }
        }
        if !o.contains(last) {
            let n = o.push(last);
            assert forall|a: int, b: int| 0 <= a < b < n.len() implies n[a] != n[b] by {
                if b == n.len() - 1 {
                    assert(n[a] == o[a]);
                    if n[a] == n[b] {
                        assert(o.contains(last));
                    }
                } else {
                    assert(n[a] == o[a] && n[b] == o[b]);
                }
            }
        }
    }
}

/// Groups jobs by room, rooms in order of first appearance and each room's jobs
/// in their order, so that one room's jobs can be applied one after another
/// while different rooms proceed side by side.
pub fn group_jobs_by_room(jobs: Vec<GraphJob>) -> (r: Vec<Vec<GraphJob>>)
    ensures
        r@.len() == room_order(jobs@).len(),
        forall|k: int| 0 <= k < r@.len() ==> (#[trigger] r@[k])@ == jobs_of_room(jobs@, room_order(jobs@)[k]),
{
    let ghost all = jobs@;
    let n = jobs.len();
    let mut rest = jobs;
    let mut rooms: Vec<u128> = Vec::new();
    let mut groups: Vec<Vec<GraphJob>> = Vec::new();
    let mut i: usize = 0;
    while i < n
        invariant
            n == all.len(),
            i <= n,
            rest@ == all.subrange(i as int, n as int),
            rooms@ == room_order(all.subrange(0, i as int)),
            groups@.len() == rooms@.len(),
            forall|k: int|
                0 <= k < groups@.len() ==> (#[trigger] groups@[k])@ == jobs_of_room(
                    all.subrange(0, i as int),
                    rooms@[k],
                ),
        decreases n - i,
    {
        let ghost prefix = all.subrange(0, i as int);
        let ghost next = all.subrange(0, i + 1);
        assert(next.drop_last() =~= prefix);
        proof {
            lemma_room_order(prefix);
        }
        let job = rest.remove(0);
        assert(job == all[i as int]);
        let room = job.room_id;
        let mut idx: usize = 0;
        while idx < rooms.len() && rooms[idx] != room
            invariant
                idx <= rooms.len(),
                forall|t: int| 0 <= t < idx ==> rooms@[t] != room,
            decreases rooms.len() - idx,
        {
            idx += 1;
        }
        let ghost old_groups = groups@;
        if idx < rooms.len() {
            assert(rooms@.contains(room));
            let mut g = groups.remove(idx);
            g.push(job);
            groups.insert(idx, g);
            proof {
                assert forall|k: int| 0 <= k < groups@.len() implies (#[trigger] groups@[k])@ == jobs_of_room(
                    next,
                    rooms@[k],
                ) by {
                    if k != idx {
                        assert(groups@[k] == old_groups[k]);
                        assert(rooms@[k] != room);
                    }
                }
            }
        } else {
            assert(!rooms@.contains(room));
            let mut g: Vec<GraphJob> = Vec::new();
            g.push(job);
            groups.push(g);
            rooms.push(room);
            proof {
                assert(jobs_of_room(prefix, room) =~= Seq::<GraphJob>::empty()) by {
                    lemma_jobs_of_absent_room(prefix, room);
                }
                assert forall|k: int| 0 <= k < groups@.len() implies (#[trigger] groups@[k])@ == jobs_of_room(
                    next,
                    rooms@[k],
                ) by {
                    if k < groups@.len() - 1 {
                        assert(groups@[k] == old_groups[k]);
                        assert(rooms@[k] != room);
                    } else {
                        assert(groups@[k]@ =~= seq![job]);
                    }
                }
            }
        }
        i += 1;
        assert(rest@ =~= all.subrange(i as int, n as int));
    }
    assert(all.subrange(0, n as int) =~= all);
    groups
}

proof fn lemma_jobs_of_absent_room(jobs: Seq<GraphJob>, room: u128)
    requires
        !room_order(jobs).contains(room),
    ensures
        jobs_of_room(jobs, room).len() == 0,
    decreases jobs.len(),
{
    lemma_room_order(jobs);
    if jobs.len() > 0 {
        let init = jobs.drop_last();
        lemma_room_order(init);
        assert(jobs[jobs.len() - 1].room_id != room);
        assert forall|i: int| 0 <= i < init.len() implies #[trigger] init[i].room_id != room by {
            assert(jobs[i].room_id == init[i].room_id);
        }
        lemma_jobs_of_absent_room(init, room);
    }
}

} // verus!
