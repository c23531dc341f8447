//! Calls into the identifier, time, hashing, URL and Web Push crates, with the
//! contracts that the rest of the library relies on.
use sha2::Digest;
use vstd::prelude::*;
use crate::text::is_ascii_alphanumeric;

verus! {

/// Lower-case hexadecimal digit for a value below 16.
pub open spec fn hex_digit(n: int) -> char {
    if n < 10 {
        (48 + n) as char
    } else {
        (87 + n) as char
    }
}

/// Lower-case hexadecimal text of a byte string, two digits per byte, high nibble first.
pub open spec fn hex_lower(bytes: Seq<u8>) -> Seq<char>
    decreases bytes.len(),
{
    if bytes.len() == 0 {
        Seq::empty()
    } else {
        hex_lower(bytes.drop_last()) + seq![
            hex_digit(bytes.last() as int / 16),
            hex_digit(bytes.last() as int % 16),
        ]
    }
}

/// The 32 hexadecimal digits of a 128-bit identifier, most significant first.
pub open spec fn id_digits(id: u128) -> Seq<char> {
    Seq::new(32, |i: int| hex_digit(((id as int) / vstd::arithmetic::power::pow(16, (31 - i) as nat)) % 16))
}

/// The hyphenated lower-case text of an identifier (8-4-4-4-12 digits).
pub open spec fn uuid_text(id: u128) -> Seq<char> {
    let d = id_digits(id);
    d.subrange(0, 8) + seq!['-'] + d.subrange(8, 12) + seq!['-'] + d.subrange(12, 16) + seq!['-']
        + d.subrange(16, 20) + seq!['-'] + d.subrange(20, 32)
}

/// Writes an identifier in its hyphenated form, as `uuid::Uuid`'s `Display` does:
/// the 128-bit value as 32 lower-case hex digits grouped 8-4-4-4-12.
#[verifier::external_body]
pub(crate) fn uuid_string(id: u128) -> (s: String)
    ensures
        s@ == uuid_text(id),
{
    uuid::Uuid::from_u128(id).to_string()
}

/// Writes an identifier as 32 lower-case hex digits without hyphens, as
/// `uuid::Uuid::simple` does.
#[verifier::external_body]
pub(crate) fn uuid_simple_string(id: u128) -> (s: String)
    ensures
        s@ == id_digits(id),
{
    uuid::Uuid::from_u128(id).simple().to_string()
}

/// An instant: whole seconds since the Unix epoch and the nanoseconds past them
/// (chrono keeps a leap second as nanoseconds of 1e9 and above).
#[derive(Clone, Copy, Debug, PartialEq, Eq, Structural)]
pub struct Timestamp {
    pub secs: i64,
    pub nanos: u32,
}

/// Strict order of instants.
pub open spec fn instant_before(a: Timestamp, b: Timestamp) -> bool {
    a.secs < b.secs || (a.secs == b.secs && a.nanos < b.nanos)
}

/// Whether `a` is strictly earlier than `b`.
pub fn is_before(a: Timestamp, b: Timestamp) -> (r: bool)
    ensures
        r == instant_before(a, b),
{
    a.secs < b.secs || (a.secs == b.secs && a.nanos < b.nanos)
}

/// The identifier that `uuid::Uuid::parse_str` reads from a text, if it accepts it.
pub uninterp spec fn parsed_uuid(text: Seq<char>) -> Option<u128>;

/// Reads an identifier with `uuid::Uuid::parse_str`. Its documentation promises that
/// the hyphenated form it writes is read back; what else it accepts is not stated.
#[verifier::external_body]
pub(crate) fn parse_uuid(text: &str) -> (r: Option<u128>)
    ensures
        r == parsed_uuid(text@),
        forall|id: u128| text@ == uuid_text(id) ==> r == Some(id),
{
    match uuid::Uuid::parse_str(text) {
        Ok(id) => Some(id.as_u128()),
        Err(_) => None,
    }
}

/// The instant that `chrono::DateTime::parse_from_rfc3339` reads from a text, if it
/// accepts it, as whole seconds since the Unix epoch and the nanoseconds past them.
pub uninterp spec fn rfc3339_instant(text: Seq<char>) -> Option<Timestamp>;

/// Parses an RFC 3339 timestamp with chrono and returns its Unix seconds and
/// sub-second nanoseconds. Which texts chrono accepts is not stated.
#[verifier::external_body]
pub(crate) fn parse_rfc3339(text: &str) -> (r: Option<Timestamp>)
    ensures
        r == rfc3339_instant(text@),
{
    match chrono::DateTime::parse_from_rfc3339(text) {
        Ok(at) => Some(Timestamp { secs: at.timestamp(), nanos: at.timestamp_subsec_nanos() }),
        Err(_) => None,
    }
}

/// The text chrono writes for an instant (Unix seconds and nanoseconds) with
/// `to_rfc3339_opts(SecondsFormat::AutoSi, true)`, or `None` where chrono has no
/// such instant.
pub uninterp spec fn rfc3339_text(at: Timestamp) -> Option<Seq<char>>;

/// Writes an instant as RFC 3339 text with chrono (automatic sub-second digits,
/// `Z` for UTC). The format itself is not stated.
#[verifier::external_body]
pub(crate) fn format_rfc3339(at: Timestamp) -> (r: Option<String>)
    ensures
        match r {
            Some(s) => rfc3339_text(at) == Some(s@),
            None => rfc3339_text(at) is None,
        },
{
    match chrono::DateTime::from_timestamp(at.secs, at.nanos) {
        Some(at) => Some(at.to_rfc3339_opts(chrono::SecondsFormat::AutoSi, true)),
        None => None,
    }
}

/// The text chrono writes for an instant with `to_rfc3339()` (automatic
/// sub-second digits, `+00:00` for UTC), or `None` where chrono has no such
/// instant.
pub uninterp spec fn rfc3339_offset_text(at: Timestamp) -> Option<Seq<char>>;

/// Writes an instant with chrono's `DateTime::to_rfc3339`. The format itself is
/// not stated.
#[verifier::external_body]
pub(crate) fn format_rfc3339_offset(at: Timestamp) -> (r: Option<String>)
    ensures
        match r {
            Some(s) => rfc3339_offset_text(at) == Some(s@),
            None => rfc3339_offset_text(at) is None,
        },
{
    match chrono::DateTime::from_timestamp(at.secs, at.nanos) {
        Some(at) => Some(at.to_rfc3339()),
        None => None,
    }
}

/// The SHA-256 digest of a byte string, as `sha2::Sha256` computes it.
pub uninterp spec fn sha256(data: Seq<u8>) -> Seq<u8>;

/// Hashes bytes with `sha2::Sha256`; the digest has 32 bytes.
#[verifier::external_body]
pub(crate) fn sha256_digest(data: &[u8]) -> (r: Vec<u8>)
    ensures
        r@ == sha256(data@),
        r@.len() == 32,
{
    <sha2::Sha256 as Digest>::digest(data).to_vec()
}

/// Encodes bytes with `hex::encode`, which writes two lower-case digits per byte.
#[verifier::external_body]
pub(crate) fn hex_encode(data: &[u8]) -> (r: String)
    ensures
        r@ == hex_lower(data@),
{
    hex::encode(data)
}

/// What `reqwest::Url::parse` reads from a text, if it accepts it: the scheme, the
/// user name, whether a password is present, and the host text if there is one.
pub uninterp spec fn parsed_url(text: Seq<char>) -> Option<(Seq<char>, Seq<char>, bool, Option<Seq<char>>)>;

/// The parts of a parsed URL that endpoint checks look at.
pub struct UrlParts {
    pub scheme: String,
    pub username: String,
    pub has_password: bool,
    pub host: Option<String>,
}

pub open spec fn url_parts_view(p: UrlParts) -> (Seq<char>, Seq<char>, bool, Option<Seq<char>>) {
    (
        p.scheme@,
        p.username@,
        p.has_password,
        match p.host {
            Some(h) => Some(h@),
            None => None,
        },
    )
}

/// Parses a URL with `reqwest::Url::parse` and returns its scheme, user name,
/// password presence and host. How the URL standard parses a text is not stated.
#[verifier::external_body]
pub(crate) fn parse_url(text: &str) -> (r: Option<UrlParts>)
    ensures
        match r {
            Some(p) => parsed_url(text@) == Some(url_parts_view(p)),
            None => parsed_url(text@) is None,
        },
{
    match reqwest::Url::parse(text) {
        Ok(url) => Some(UrlParts {
            scheme: url.scheme().to_owned(),
            username: url.username().to_owned(),
            has_password: url.password().is_some(),
            host: url.host_str().map(str::to_owned),
        }),
        Err(_) => None,
    }
}

/// The bytes that `base64::decode_config` reads from a text with the URL-safe,
/// unpadded configuration, if it accepts the text.
pub uninterp spec fn base64_url_decoded(text: Seq<char>) -> Option<Seq<u8>>;

/// Decodes URL-safe base64 (padding optional) with the base64 crate. Which texts
/// it accepts is not stated.
#[verifier::external_body]
pub(crate) fn decode_base64_url(text: &str) -> (r: Option<Vec<u8>>)
    ensures
        match r {
            Some(b) => base64_url_decoded(text@) == Some(b@),
            None => base64_url_decoded(text@) is None,
        },
{
    match base64::decode_config(text, base64::URL_SAFE_NO_PAD) {
        Ok(bytes) => Some(bytes),
        Err(_) => None,
    }
}

/// Whether `web_push::VapidSignatureBuilder::from_base64_no_sub` accepts a text as a
/// URL-safe, unpadded base64 VAPID private key.
pub uninterp spec fn vapid_key_accepted(key: Seq<char>) -> bool;

/// Asks web-push whether a text is a usable VAPID signing key. web-push decodes
/// the text with the same base64 configuration and refuses it when that fails;
/// it panics when the text decodes to other than 32 bytes, so such keys are not
/// admitted here. Which 32-byte keys it accepts is not stated.
#[verifier::external_body]
pub(crate) fn vapid_private_key_accepted(key: &str) -> (ok: bool)
    requires
        base64_url_decoded(key@) matches Some(b) ==> b.len() == 32,
    ensures
        ok == vapid_key_accepted(key@),
        base64_url_decoded(key@) is None ==> !ok,
{
    web_push::VapidSignatureBuilder::from_base64_no_sub(key, web_push::URL_SAFE_NO_PAD).is_ok()
}

/// Whether `char::is_alphanumeric` holds of a character (Unicode Alphabetic or Numeric).
pub uninterp spec fn alphanumeric(c: char) -> bool;

/// Tests a character with `char::is_alphanumeric`. Its documentation makes the
/// ASCII letters and digits alphanumeric and the rest of ASCII not; the Unicode
/// tables beyond ASCII are not stated.
#[verifier::external_body]
pub(crate) fn char_is_alphanumeric(c: char) -> (b: bool)
    ensures
        b == alphanumeric(c),
        c <= '\u{7f}' ==> (b == is_ascii_alphanumeric(c)),
{
    c.is_alphanumeric()
}

} // verus!
