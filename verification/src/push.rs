//! Web Push: configuration checks, subscription checks, the payload sent for a
//! notification, and the decisions of the delivery loop.
use vstd::prelude::*;
use crate::http::Status;
use crate::interop::{
    base64_url_decoded, decode_base64_url, instant_before, parse_url, parsed_url, url_parts_view,
    uuid_string, uuid_text, vapid_key_accepted, vapid_private_key_accepted, Timestamp, UrlParts,
};
use crate::notifications::{NotificationKind, NotificationView};
use crate::text::{
    any_white_space, chars_contain, chars_end_with, copy_str, has_prefix, has_suffix, is_white_space,
    is_ascii_alphanumeric, char_is_ascii_alphanumeric, lower_chars, lower_text, starts_with, str_eq,
    to_chars, trim, trim_bounds,
};

verus! {

broadcast use vstd::string::group_string_axioms;

/// Web Push settings.
pub struct WebPushConfig {
    pub enabled: bool,
    pub public_key: String,
    pub private_key: String,
    pub subject: String,
    pub allowed_endpoint_hosts: Vec<String>,
    pub poll_interval_ms: u64,
    pub request_timeout_secs: u64,
    pub max_attempts: i32,
}

impl Default for WebPushConfig {
    /// Disabled, with the push services of the major browsers allowed, a poll
    /// every second, a 10 second request timeout and 5 attempts.
    fn default() -> (c: WebPushConfig)
        ensures
            !c.enabled,
            c.public_key@.len() == 0,
            c.private_key@.len() == 0,
            c.subject@.len() == 0,
            c.allowed_endpoint_hosts@.len() == 4,
            c.allowed_endpoint_hosts@[0]@ == "fcm.googleapis.com"@,
            c.allowed_endpoint_hosts@[1]@ == "updates.push.services.mozilla.com"@,
            c.allowed_endpoint_hosts@[2]@ == "web.push.apple.com"@,
            c.allowed_endpoint_hosts@[3]@ == "notify.windows.com"@,
            c.poll_interval_ms == 1000,
            c.request_timeout_secs == 10,
            c.max_attempts == 5,
    {
        WebPushConfig {
            enabled: false,
            public_key: String::new(),
            private_key: String::new(),
            subject: String::new(),
            allowed_endpoint_hosts: vec![
                copy_str("fcm.googleapis.com"),
                copy_str("updates.push.services.mozilla.com"),
                copy_str("web.push.apple.com"),
                copy_str("notify.windows.com"),
            ],
            poll_interval_ms: 1000,
            request_timeout_secs: 10,
            max_attempts: 5,
        }
    }
}

/// Why Web Push settings are refused.
#[derive(Clone, Copy, Debug, PartialEq, Eq, Structural)]
pub enum WebPushConfigError {
    PollInterval,
    RequestTimeout,
    MaxAttempts,
    EndpointHosts,
    MissingKeys,
    Subject,
    PrivateKey,
}

impl WebPushConfigError {
    /// The message reported for the refusal.
    pub fn message(self) -> (s: &'static str)
        ensures
            s@ == match self {
                WebPushConfigError::PollInterval => "web_push.poll_interval_ms must be between 1 and 60000"@,
                WebPushConfigError::RequestTimeout => "web_push.request_timeout_secs must be between 1 and 60"@,
                WebPushConfigError::MaxAttempts => "web_push.max_attempts must be between 1 and 20"@,
                WebPushConfigError::EndpointHosts => "web_push.allowed_endpoint_hosts must contain valid host names"@,
                WebPushConfigError::MissingKeys => "web_push public_key and private_key are required when enabled"@,
                WebPushConfigError::Subject => "web_push.subject must use mailto: or https://"@,
                WebPushConfigError::PrivateKey => "web_push.private_key is not a valid URL-safe VAPID key"@,
            },
    {
        match self {
            WebPushConfigError::PollInterval => "web_push.poll_interval_ms must be between 1 and 60000",
            WebPushConfigError::RequestTimeout => "web_push.request_timeout_secs must be between 1 and 60",
            WebPushConfigError::MaxAttempts => "web_push.max_attempts must be between 1 and 20",
            WebPushConfigError::EndpointHosts => "web_push.allowed_endpoint_hosts must contain valid host names",
            WebPushConfigError::MissingKeys => "web_push public_key and private_key are required when enabled",
            WebPushConfigError::Subject => "web_push.subject must use mailto: or https://",
            WebPushConfigError::PrivateKey => "web_push.private_key is not a valid URL-safe VAPID key",
        }
    }
}

/// A usable host name: not blank, and without `/`, `:` or white space.
pub open spec fn host_name_ok(h: Seq<char>) -> bool {
    &&& trim(h).len() > 0
    &&& !h.contains('/')
    &&& !h.contains(':')
    &&& forall|i: int| 0 <= i < h.len() ==> !is_white_space(#[trigger] h[i])
}

/// The first refusal the settings meet before the private key is handed to
/// web-push, checked in order, or none.
pub open spec fn settings_error(c: WebPushConfig) -> Option<WebPushConfigError> {
    if c.poll_interval_ms == 0 || c.poll_interval_ms > 60000 {
        Some(WebPushConfigError::PollInterval)
    } else if c.request_timeout_secs == 0 || c.request_timeout_secs > 60 {
        Some(WebPushConfigError::RequestTimeout)
    } else if !(1 <= c.max_attempts <= 20) {
        Some(WebPushConfigError::MaxAttempts)
    } else if c.allowed_endpoint_hosts@.len() == 0 || exists|i: int|
        0 <= i < c.allowed_endpoint_hosts@.len() && !host_name_ok(
            #[trigger] c.allowed_endpoint_hosts@[i]@,
        ) {
        Some(WebPushConfigError::EndpointHosts)
    } else if !c.enabled {
        None
    } else if trim(c.public_key@).len() == 0 || trim(c.private_key@).len() == 0 {
        Some(WebPushConfigError::MissingKeys)
    } else if !(has_prefix(c.subject@, "mailto:"@) || has_prefix(c.subject@, "https://"@)) {
        Some(WebPushConfigError::Subject)
    } else {
        None
    }
}

/// The private key is handed to web-push: push is enabled and every earlier
/// check passed.
pub open spec fn reaches_key_check(c: WebPushConfig) -> bool {
    c.enabled && settings_error(c) is None
}

/// A key that web-push can examine without panicking: it does not decode, or it
/// decodes to 32 bytes.
pub open spec fn key_examinable(key: Seq<char>) -> bool {
    base64_url_decoded(key) matches Some(b) ==> b.len() == 32
}

/// The first refusal the settings meet, checked in order, or none.
pub open spec fn config_error(c: WebPushConfig) -> Option<WebPushConfigError> {
    if settings_error(c) is Some {
        settings_error(c)
    } else if reaches_key_check(c) && !vapid_key_accepted(c.private_key@) {
        Some(WebPushConfigError::PrivateKey)
    } else {
        None
    }
}

fn is_blank(s: &str) -> (b: bool)
    ensures
        b == (trim(s@).len() == 0),
{
    let v = to_chars(s);
    let (a, e) = trim_bounds(&v);
    proof {
        crate::text::lemma_trim_bounds(v@);
    }
    a == e
}

fn host_ok(h: &str) -> (b: bool)
    ensures
        b == host_name_ok(h@),
{
    if is_blank(h) {
        return false;
    }
    let v = to_chars(h);
    !chars_contain(&v, '/') && !chars_contain(&v, ':') && !any_white_space(&v)
}

impl WebPushConfig {
    /// Checks the settings up to the private key in order: poll interval
    /// 1..=60000 ms, request timeout 1..=60 s, 1..=20 attempts, a non-empty list
    /// of valid host names; when enabled also both keys and a `mailto:` or
    /// `https://` subject.
    pub fn check_settings(&self) -> (r: Result<(), WebPushConfigError>)
        ensures
            match r {
                Ok(_) => settings_error(*self) is None,
                Err(e) => settings_error(*self) == Some(e),
            },
    {
        if self.poll_interval_ms == 0 || self.poll_interval_ms > 60000 {
            return Err(WebPushConfigError::PollInterval);
        }
        if self.request_timeout_secs == 0 || self.request_timeout_secs > 60 {
            return Err(WebPushConfigError::RequestTimeout);
        }
        if self.max_attempts < 1 || self.max_attempts > 20 {
            return Err(WebPushConfigError::MaxAttempts);
        }
        if self.allowed_endpoint_hosts.len() == 0 {
            return Err(WebPushConfigError::EndpointHosts);
        }
        let mut i: usize = 0;
        while i < self.allowed_endpoint_hosts.len()
            invariant
                i <= self.allowed_endpoint_hosts@.len(),
                self.allowed_endpoint_hosts@.len() > 0,
                !(self.poll_interval_ms == 0 || self.poll_interval_ms > 60000),
                !(self.request_timeout_secs == 0 || self.request_timeout_secs > 60),
                1 <= self.max_attempts <= 20,
                forall|k: int| 0 <= k < i ==> host_name_ok(#[trigger] self.allowed_endpoint_hosts@[k]@),
            decreases self.allowed_endpoint_hosts.len() - i,
        {
            if !host_ok(self.allowed_endpoint_hosts[i].as_str()) {
                assert(!host_name_ok(self.allowed_endpoint_hosts@[i as int]@));
                return Err(WebPushConfigError::EndpointHosts);
            }
            i += 1;
        }
        if !self.enabled {
            return Ok(());
        }
        if is_blank(self.public_key.as_str()) || is_blank(self.private_key.as_str()) {
            return Err(WebPushConfigError::MissingKeys);
        }
        if !(starts_with(self.subject.as_str(), "mailto:") || starts_with(
            self.subject.as_str(),
            "https://",
        )) {
            return Err(WebPushConfigError::Subject);
        }
        Ok(())
    }

    /// Checks the settings in order, and last, when push is enabled, that
    /// web-push accepts the private key.
    pub fn validate(&self) -> (r: Result<(), WebPushConfigError>)
        requires
            reaches_key_check(*self) ==> key_examinable(self.private_key@),
        ensures
            match r {
                Ok(_) => config_error(*self) is None,
                Err(e) => config_error(*self) == Some(e),
            },
    {
        match self.check_settings() {
            Err(e) => {
                return Err(e);
            },
            Ok(_) => {},
        }
        if self.enabled && !vapid_private_key_accepted(self.private_key.as_str()) {
            return Err(WebPushConfigError::PrivateKey);
        }
        Ok(())
    }

    /// Validates settings whatever the key: `None` when the key would reach
    /// web-push and decode to other than 32 bytes (which web-push cannot handle),
    /// else the outcome of `validate`.
    pub fn validate_checked(&self) -> (r: Option<Result<(), WebPushConfigError>>)
        ensures
            r is None <==> reaches_key_check(*self) && !key_examinable(self.private_key@),
            r matches Some(v) ==> match v {
                Ok(_) => config_error(*self) is None,
                Err(e) => config_error(*self) == Some(e),
            },
    {
        match self.check_settings() {
            Err(e) => Some(Err(e)),
            Ok(_) => {
                if self.enabled {
                    match decode_base64_url(self.private_key.as_str()) {
                        Some(bytes) => {
                            if bytes.len() != 32 {
                                return None;
                            }
                        },
                        None => {},
                    }
                }
                Some(self.validate())
            },
        }
    }
}

/// What the browser client is told of the Web Push settings.
pub struct WebPushPublicConfig {
    pub enabled: bool,
    pub public_key: Option<String>,
}

/// The public settings: the VAPID public key is given only when push is enabled.
pub fn public_config(config: &WebPushConfig) -> (r: WebPushPublicConfig)
    ensures
        r.enabled == config.enabled,
        match r.public_key {
            Some(k) => config.enabled && k@ == config.public_key@,
            None => !config.enabled,
        },
{
    WebPushPublicConfig {
        enabled: config.enabled,
        public_key: if config.enabled {
            Some(copy_str(config.public_key.as_str()))
        } else {
            None
        },
    }
}

/// A saved browser subscription as its owner sees it.
pub struct PushSubscriptionView {
    pub id: String,
    pub show_details: bool,
    pub created_at: Timestamp,
    pub updated_at: Timestamp,
}

/// A browser subscription to save.
pub struct SavePushSubscriptionRequest {
    pub endpoint: String,
    pub keys: PushSubscriptionKeys,
    pub show_details: bool,
}

/// The keys a browser gives with its subscription.
pub struct PushSubscriptionKeys {
    pub p256dh: String,
    pub auth: String,
}

/// A browser subscription to remove.
pub struct DeletePushSubscriptionRequest {
    pub endpoint: String,
}

/// A key text: 1 to `max_len` characters, each an ASCII letter or digit, `-` or `_`.
pub open spec fn key_ok(value: Seq<char>, max_len: int) -> bool {
    &&& 0 < value.len() <= max_len
    &&& forall|i: int|
        0 <= i < value.len() ==> is_ascii_alphanumeric(#[trigger] value[i]) || value[i] == '-'
            || value[i] == '_'
}

/// Whether a subscription key is acceptable. Every accepted character is one
/// byte, so the length bound holds in bytes as well as in characters.
pub fn valid_key(value: &str, max_len: usize) -> (b: bool)
    ensures
        b == key_ok(value@, max_len as int),
{
    let v = to_chars(value);
    if v.len() == 0 || v.len() > max_len {
        return false;
    }
    let mut i: usize = 0;
    while i < v.len()
        invariant
            i <= v.len(),
            v@ == value@,
            0 < v@.len() <= max_len,
            forall|k: int|
                0 <= k < i ==> is_ascii_alphanumeric(#[trigger] v@[k]) || v@[k] == '-' || v@[k]
                    == '_',
        decreases v.len() - i,
    {
        let c = v[i];
        if !(char_is_ascii_alphanumeric(c) || c == '-' || c == '_') {
            assert(!(is_ascii_alphanumeric(v@[i as int]) || v@[i as int] == '-' || v@[i as int] == '_'));
            return false;
        }
        i += 1;
    }
    true
}

/// A host matches an allowed host when they are equal ignoring ASCII case, or
/// the host is a subdomain of it.
pub open spec fn host_allowed(host: Seq<char>, allowed: Seq<char>) -> bool {
    lower_text(host) == lower_text(allowed) || has_suffix(
        lower_text(host),
        seq!['.'] + lower_text(allowed),
    )
}

/// Whether parsed endpoint parts may receive pushes: HTTPS, no user name or
/// password, and a host that matches an allowed host.
pub open spec fn endpoint_parts_ok(parts: (Seq<char>, Seq<char>, bool, Option<Seq<char>>), allowed: Seq<String>) -> bool {
    &&& parts.0 == "https"@
    &&& parts.1.len() == 0
    &&& !parts.2
    &&& match parts.3 {
        Some(h) => exists|i: int| 0 <= i < allowed.len() && host_allowed(h, #[trigger] allowed[i]@),
        None => false,
    }
}

fn host_matches(host: &Vec<char>, allowed: &str) -> (b: bool)
    ensures
        b == host_allowed(host@, allowed@),
{
    let h = lower_chars(host);
    let a = lower_chars(&to_chars(allowed));
    let mut dotted: Vec<char> = Vec::new();
    dotted.push('.');
    let mut k: usize = 0;
    while k < a.len()
        invariant
            k <= a.len(),
            dotted@ == seq!['.'] + a@.subrange(0, k as int),
        decreases a.len() - k,
    {
        dotted.push(a[k]);
        k += 1;
        assert(dotted@ =~= seq!['.'] + a@.subrange(0, k as int));
    }
    assert(a@.subrange(0, a.len() as int) =~= a@);
    crate::text::chars_equal(&h, &a) || chars_end_with(&h, &dotted)
}

/// Whether a host matches one of the allowed hosts.
pub fn any_host_allowed(host: &str, allowed_hosts: &Vec<String>) -> (b: bool)
    ensures
        b == exists|i: int| 0 <= i < allowed_hosts@.len() && host_allowed(host@, #[trigger] allowed_hosts@[i]@),
{
    let hv = to_chars(host);
    let mut i: usize = 0;
    while i < allowed_hosts.len()
        invariant
            i <= allowed_hosts@.len(),
            hv@ == host@,
            forall|k: int| 0 <= k < i ==> !host_allowed(host@, #[trigger] allowed_hosts@[k]@),
        decreases allowed_hosts.len() - i,
    {
        if host_matches(&hv, allowed_hosts[i].as_str()) {
            assert(host_allowed(host@, allowed_hosts@[i as int]@));
            return true;
        }
        i += 1;
    }
    false
}

/// Whether the parts of a parsed endpoint may receive pushes.
pub fn endpoint_parts_allowed(parts: &UrlParts, allowed_hosts: &Vec<String>) -> (b: bool)
    ensures
        b == endpoint_parts_ok(url_parts_view(*parts), allowed_hosts@),
{
    if !str_eq(parts.scheme.as_str(), "https") || parts.username.as_str().unicode_len() != 0
        || parts.has_password {
        return false;
    }
    match &parts.host {
        None => false,
        Some(host) => any_host_allowed(host.as_str(), allowed_hosts),
    }
}

/// The UTF-8 encoding of a text has one to four bytes per character.
pub proof fn lemma_utf8_len_bounds(s: Seq<char>)
    ensures
        s.len() <= vstd::utf8::encode_utf8(s).len() <= 4 * s.len(),
    decreases s.len(),
{
    if s.len() > 0 {
        lemma_utf8_len_bounds(s.drop_first());
    }
}

/// Whether an endpoint may receive pushes: at most 2048 bytes, read by the URL
/// parser, and allowed by `endpoint_parts_ok`.
pub open spec fn endpoint_ok(endpoint: Seq<char>, allowed: Seq<String>) -> bool {
    &&& vstd::utf8::encode_utf8(endpoint).len() <= 2048
    &&& match parsed_url(endpoint) {
        Some(parts) => endpoint_parts_ok(parts, allowed),
        None => false,
    }
}

/// Whether a subscription endpoint is an HTTPS address of an allowed push
/// service.
pub fn valid_endpoint(endpoint: &str, allowed_hosts: &Vec<String>) -> (b: bool)
    ensures
        b == endpoint_ok(endpoint@, allowed_hosts@),
{
    proof {
        lemma_utf8_len_bounds(endpoint@);
    }
    if endpoint.unicode_len() > 2048 {
        return false;
    }
    if endpoint.len() > 2048 {
        return false;
    }
    match parse_url(endpoint) {
        Some(parts) => endpoint_parts_allowed(&parts, allowed_hosts),
        None => false,
    }
}

/// Checks a subscription before it is saved: push must be enabled (else not
/// found), and the endpoint and both keys must be valid (else a bad request).
pub fn check_subscription(config: &WebPushConfig, request: &SavePushSubscriptionRequest) -> (r: Result<(), Status>)
    ensures
        !config.enabled ==> r == Err::<(), Status>(Status::NotFound),
        config.enabled ==> (r is Ok <==> endpoint_ok(
            request.endpoint@,
            config.allowed_endpoint_hosts@,
        ) && key_ok(request.keys.p256dh@, 256) && key_ok(request.keys.auth@, 128)),
        config.enabled && r is Err ==> r == Err::<(), Status>(Status::BadRequest),
{
    if !config.enabled {
        return Err(Status::NotFound);
    }
    if !valid_endpoint(request.endpoint.as_str(), &config.allowed_endpoint_hosts) || !valid_key(
        request.keys.p256dh.as_str(),
        256,
    ) || !valid_key(request.keys.auth.as_str(), 128) {
        return Err(Status::BadRequest);
    }
    Ok(())
}

/// Checks a subscription removal: the endpoint must be valid.
pub fn check_unsubscribe(config: &WebPushConfig, request: &DeletePushSubscriptionRequest) -> (r: Result<(), Status>)
    ensures
        r is Ok <==> endpoint_ok(request.endpoint@, config.allowed_endpoint_hosts@),
        r is Err ==> r == Err::<(), Status>(Status::BadRequest),
{
    if valid_endpoint(request.endpoint.as_str(), &config.allowed_endpoint_hosts) {
        Ok(())
    } else {
        Err(Status::BadRequest)
    }
}

/// What is pushed to a device for a notification.
pub struct PushPayload {
    pub title: String,
    pub body: Option<String>,
    pub url: String,
    pub tag: String,
}

/// The page a pushed notification opens.
pub open spec fn payload_url(kind: NotificationKind, run_id: Option<u128>, room_id: Option<u128>, message_id: Option<u128>) -> Seq<char> {
    match kind {
        NotificationKind::FriendRequest => "/contacts"@,
        NotificationKind::AiRunCompleted => match run_id {
            Some(id) => "/assistant?run="@ + uuid_text(id),
            None => "/assistant"@,
        },
        _ => match room_id {
            Some(r) => match message_id {
                Some(m) => "/rooms/"@ + uuid_text(r) + "?message="@ + uuid_text(m),
                None => "/rooms/"@ + uuid_text(r),
            },
            None => "/notifications"@,
        },
    }
}

fn append_id(s: &mut String, id: u128)
    ensures
        final(s)@ == old(s)@ + uuid_text(id),
{
    let t = uuid_string(id);
    s.append(t.as_str());
}

/// Whether `p` is the push sent for a notification: the app's title, the
/// summary as body only when the device shows details, the page it opens, and
/// a tag naming the notification.
pub open spec fn payload_of(p: PushPayload, notification: NotificationView, show_details: bool) -> bool {
    &&& p.title@ == "Echo Gate"@
    &&& match p.body {
        Some(b) => show_details && b@ == notification.summary@,
        None => !show_details,
    }
    &&& p.url@ == payload_url(notification.kind, notification.run_id, notification.room_id, notification.message_id)
    &&& p.tag@ == "notification:"@ + notification.id@
}

/// The payload pushed for a notification: a fixed title, the summary only when
/// the device asked for details, the page to open, and a tag that lets a newer
/// push of the same notification replace an older one.
pub fn payload_for(notification: &NotificationView, show_details: bool) -> (p: PushPayload)
    ensures
        payload_of(p, *notification, show_details),
{
    let url = match notification.kind {
        NotificationKind::FriendRequest => copy_str("/contacts"),
        NotificationKind::AiRunCompleted => match notification.run_id {
            Some(id) => {
                let mut u = copy_str("/assistant?run=");
                append_id(&mut u, id);
                u
            },
            None => copy_str("/assistant"),
        },
        _ => match notification.room_id {
            Some(room_id) => {
                let mut u = copy_str("/rooms/");
                append_id(&mut u, room_id);
                match notification.message_id {
                    Some(message_id) => {
                        u.append("?message=");
                        append_id(&mut u, message_id);
                    },
                    None => {},
                }
                u
            },
            None => copy_str("/notifications"),
        },
    };
    let mut tag = copy_str("notification:");
    tag.append(notification.id.as_str());
    PushPayload {
        title: copy_str("Echo Gate"),
        body: if show_details {
            Some(copy_str(notification.summary.as_str()))
        } else {
            None
        },
        url,
        tag,
    }
}

/// What the delivery loop does with a claimed job before sending anything.
#[derive(Clone, Copy, Debug, PartialEq, Eq, Structural)]
pub enum PushGate {
    /// Drop the job: the notification is gone or its source is unavailable.
    Complete,
    /// Ask the recipient's room preferences first.
    CheckRoom { room_id: u128, mention_or_reply: bool },
    /// Send without asking.
    Send,
}

/// How a claimed job is gated by its notification: dropped when the
/// notification is gone or its source is unavailable, checked against the
/// room's settings when it belongs to a room, else sent.
pub open spec fn push_gate_of(notification: Option<NotificationView>) -> PushGate {
    match notification {
        None => PushGate::Complete,
        Some(n) => if !n.source_available {
            PushGate::Complete
        } else {
            match n.room_id {
                Some(room_id) => PushGate::CheckRoom {
                    room_id,
                    mention_or_reply: n.kind == NotificationKind::Mention || n.kind == NotificationKind::Reply,
                },
                None => PushGate::Send,
            }
        },
    }
}

/// Gating by notification: no notification, or one that is no longer
/// available, drops the job; an available one in a room is checked against that
/// room's settings, as a mention-or-reply exactly when its kind is a mention or a
/// reply (so a reply and a mention are gated alike, and every other kind is
/// not); an available one outside any room is sent.
pub proof fn law_gate_checks_mentions_and_replies_alike(n: NotificationView)
    ensures
        push_gate_of(None) == PushGate::Complete,
        !n.source_available ==> push_gate_of(Some(n)) == PushGate::Complete,
        n.source_available && n.room_id is None ==> push_gate_of(Some(n)) == PushGate::Send,
        n.source_available && n.room_id is Some ==> push_gate_of(Some(n)) == (PushGate::CheckRoom {
            room_id: n.room_id->Some_0,
            mention_or_reply: n.kind == NotificationKind::Mention || n.kind == NotificationKind::Reply,
        }),
        n.source_available && n.room_id is Some ==> push_gate_of(Some(NotificationView { kind: NotificationKind::Reply, ..n }))
            == push_gate_of(Some(NotificationView { kind: NotificationKind::Mention, ..n })),
{
}

/// Decides a job from the notification it points to (as its recipient sees it).
pub fn push_gate(notification: &Option<NotificationView>) -> (g: PushGate)
    ensures
        g == push_gate_of(*notification),
{
    match notification {
        None => PushGate::Complete,
        Some(n) => {
            if !n.source_available {
                PushGate::Complete
            } else {
                match n.room_id {
                    Some(room_id) => PushGate::CheckRoom {
                        room_id,
                        mention_or_reply: n.kind == NotificationKind::Mention || n.kind
                            == NotificationKind::Reply,
                    },
                    None => PushGate::Send,
                }
            }
        },
    }
}

/// A member's notification settings for one room.
pub struct RoomPushPreference {
    pub notification_level: String,
    pub muted_until: Option<Timestamp>,
}

/// Whether a room lets a push through: the recipient must be an active member
/// (a preference exists), not muted at `now`, with level `all`, or `mentions`
/// for a mention or reply.
pub open spec fn room_push_allowed(preference: Option<RoomPushPreference>, now: Timestamp, mention_or_reply: bool) -> bool {
    match preference {
        None => false,
        Some(p) => {
            let muted = match p.muted_until {
                Some(u) => instant_before(now, u),
                None => false,
            };
            !muted && p.notification_level@ != "none"@ && (p.notification_level@ == "all"@ || (
            p.notification_level@ == "mentions"@ && mention_or_reply))
        },
    }
}

/// Whether a member's room settings mute it at `now`.
pub open spec fn muted_at(p: RoomPushPreference, now: Timestamp) -> bool {
    p.muted_until matches Some(u) && instant_before(now, u)
}

/// How room settings gate pushes, whatever they were before: a member with
/// level `all` who is not muted gets every push; with level `mentions`, only
/// mentions and replies; with level `none`, nothing; while muted (until a later
/// instant), nothing; and an account with no active membership, nothing.
pub proof fn law_room_preferences_gate_pushes(p: RoomPushPreference, now: Timestamp, mention_or_reply: bool)
    ensures
        p.notification_level@ == "all"@ && !muted_at(p, now) ==> room_push_allowed(Some(p), now, mention_or_reply),
        p.notification_level@ == "mentions"@ && !muted_at(p, now) ==> (room_push_allowed(Some(p), now, mention_or_reply)
            <==> mention_or_reply),
        p.notification_level@ == "none"@ ==> !room_push_allowed(Some(p), now, mention_or_reply),
        muted_at(p, now) ==> !room_push_allowed(Some(p), now, mention_or_reply),
        !room_push_allowed(None, now, mention_or_reply),
{
    reveal_strlit("all");
    reveal_strlit("mentions");
    reveal_strlit("none");
    assert("all"@.len() != "none"@.len());
    assert("mentions"@.len() != "none"@.len());
    assert("mentions"@.len() != "all"@.len());
}

/// Applies the recipient's room settings to a push.
pub fn room_allows_push(preference: &Option<RoomPushPreference>, now: Timestamp, mention_or_reply: bool) -> (b: bool)
    ensures
        b == room_push_allowed(*preference, now, mention_or_reply),
{
    match preference {
        None => false,
        Some(p) => {
            let muted = match p.muted_until {
                Some(u) => now.secs < u.secs || (now.secs == u.secs && now.nanos < u.nanos),
                None => false,
            };
            let level = p.notification_level.as_str();
            if muted || str_eq(level, "none") {
                return false;
            }
            str_eq(level, "all") || (str_eq(level, "mentions") && mention_or_reply)
        },
    }
}

/// How a send went.
#[derive(Clone, Copy, Debug, PartialEq, Eq, Structural)]
pub enum PushSendOutcome {
    Delivered,
    Expired,
    Retryable,
}

/// What the push service or the Web Push library answered.
#[derive(Clone, Copy, Debug, PartialEq, Eq, Structural)]
pub enum SendResult {
    /// The service answered with this HTTP status.
    Status(u16),
    /// The subscription cannot be used (bad endpoint or keys).
    InvalidSubscription,
    /// Any other failure.
    Failed,
}

/// A 2xx answer delivers; 400, 404 and 410 mean the subscription is gone, as
/// does an unusable subscription; anything else is retried.
pub fn send_outcome(result: SendResult) -> (o: PushSendOutcome)
    ensures
        o == match result {
            SendResult::Status(s) => if 200 <= s <= 299 {
                PushSendOutcome::Delivered
            } else if s == 400 || s == 404 || s == 410 {
                PushSendOutcome::Expired
            } else {
                PushSendOutcome::Retryable
            },
            SendResult::InvalidSubscription => PushSendOutcome::Expired,
            SendResult::Failed => PushSendOutcome::Retryable,
        },
{
    match result {
        SendResult::Status(s) => {
            if 200 <= s && s <= 299 {
                PushSendOutcome::Delivered
            } else if s == 400 || s == 404 || s == 410 {
                PushSendOutcome::Expired
            } else {
                PushSendOutcome::Retryable
            }
        },
        SendResult::InvalidSubscription => PushSendOutcome::Expired,
        SendResult::Failed => PushSendOutcome::Retryable,
    }
}

/// What happens to a job after a retryable failure.
#[derive(Clone, Copy, Debug, PartialEq, Eq, Structural)]
pub enum RetryPlan {
    /// Out of attempts: drop the job.
    GiveUp,
    /// Try again later.
    Reschedule { attempts: i32, delay_secs: i64 },
}

/// The back-off before the next attempt: 2 to the power of the attempt count,
/// at most 300 seconds (a negative count waits the most).
pub open spec fn retry_delay(attempts: int) -> int {
    if attempts < 0 || vstd::arithmetic::power2::pow2(attempts as nat) > 300 {
        300
    } else {
        vstd::arithmetic::power2::pow2(attempts as nat) as int
    }
}

/// The count after a failed attempt (held at the largest `i32`).
pub open spec fn next_attempts(attempts: i32) -> int {
    if attempts == i32::MAX {
        i32::MAX as int
    } else {
        attempts + 1
    }
}

/// The plan after a failed attempt: give up once the count reaches
/// `max_attempts`, else reschedule with the count and its back-off.
pub open spec fn planned_retry(attempts: i32, max_attempts: i32) -> RetryPlan {
    if next_attempts(attempts) >= max_attempts {
        RetryPlan::GiveUp
    } else {
        RetryPlan::Reschedule {
            attempts: next_attempts(attempts) as i32,
            delay_secs: retry_delay(next_attempts(attempts)) as i64,
        }
    }
}

/// Retries run out: a rescheduled job's count goes up by exactly one and stays
/// below `max_attempts`, so a job is dropped after at most `max_attempts`
/// failures; a job whose next count reaches the limit is dropped at once; and
/// every wait lasts from 1 to 300 seconds.
pub proof fn law_retries_run_out(attempts: i32, max_attempts: i32)
    ensures
        planned_retry(attempts, max_attempts) matches RetryPlan::Reschedule { attempts: n, delay_secs: d }
            ==> n == attempts + 1 && n < max_attempts && 1 <= d <= 300,
        attempts + 1 >= max_attempts ==> planned_retry(attempts, max_attempts) == RetryPlan::GiveUp,
{
    let n = next_attempts(attempts);
    if n >= 0 {
        vstd::arithmetic::power2::lemma_pow2_pos(n as nat);
    }
}

/// Back-off grows with the attempt count: never shorter for a later attempt.
pub proof fn law_backoff_never_shrinks(a: int, b: int)
    requires
        0 <= a <= b,
    ensures
        retry_delay(a) <= retry_delay(b),
{
    if a < b {
        vstd::arithmetic::power2::lemma_pow2_strictly_increases(a as nat, b as nat);
    }
}

/// After a retryable failure the attempt count goes up by one; a job that
/// reaches `max_attempts` is dropped, any other waits `retry_delay` seconds.
pub fn retry_plan(attempts: i32, max_attempts: i32) -> (p: RetryPlan)
    ensures
        p == planned_retry(attempts, max_attempts),
{
    let next = if attempts == i32::MAX {
        i32::MAX
    } else {
        attempts + 1
    };
    if next >= max_attempts {
        return RetryPlan::GiveUp;
    }
    let delay: i64 = if next < 0 || next > 8 {
        proof {
            if next > 8 {
                vstd::arithmetic::power2::lemma2_to64();
                if next > 9 {
                    vstd::arithmetic::power2::lemma_pow2_strictly_increases(9, next as nat);
                }
            }
        }
        300
    } else {
        let mut d: i64 = 1;
        let mut k: i32 = 0;
        proof {
            vstd::arithmetic::power2::lemma2_to64();
        }
        while k < next
            invariant
                0 <= k <= next <= 8,
                d == vstd::arithmetic::power2::pow2(k as nat),
            decreases next - k,
        {
            proof {
                vstd::arithmetic::power2::lemma_pow2_unfold((k + 1) as nat);
                vstd::arithmetic::power2::lemma2_to64();
                vstd::arithmetic::power2::lemma_pow2_strictly_increases(k as nat, 8);
            }
            d = d * 2;
            k += 1;
        }
        proof {
            vstd::arithmetic::power2::lemma2_to64();
            if next < 8 {
                vstd::arithmetic::power2::lemma_pow2_strictly_increases(next as nat, 8);
            }
        }
        d
    };
    RetryPlan::Reschedule { attempts: next, delay_secs: delay }
}

/// What the delivery loop does next with a claimed job.
pub enum PushJobAction {
    /// Finish the job without sending.
    Complete,
    /// Ask the recipient's settings for this room.
    CheckRoom { room_id: u128, mention_or_reply: bool },
    /// Send this push.
    Send(PushPayload),
    /// The device's subscription is gone: remove it.
    Expire,
    /// Try again later.
    Reschedule { attempts: i32, delay_secs: i64 },
}

/// What the delivery loop learned about a job.
pub enum PushJobEvent {
    /// The job's notification was loaded (none when it is gone).
    Loaded,
    /// The recipient's room settings answered.
    RoomChecked(bool),
    /// The push was sent with this outcome.
    Sent(PushSendOutcome),
}

/// One step of delivering a claimed job, given its notification (as the
/// recipient sees it), the device's detail preference and the attempts so far.
/// A loaded job is gated (`push_gate`): dropped, checked against the room, or
/// sent. A room that refuses drops it, one that allows sends it. A delivered
/// push finishes it, an expired subscription is removed, and a retryable
/// failure is rescheduled or, out of attempts, finished (`retry_plan`).
pub fn push_job_next(
    notification: &Option<NotificationView>,
    show_details: bool,
    attempts: i32,
    max_attempts: i32,
    event: PushJobEvent,
) -> (a: PushJobAction)
    ensures
        event is Loaded ==> match push_gate_of(*notification) {
            PushGate::Complete => a is Complete,
            PushGate::CheckRoom { room_id, mention_or_reply } => a == (PushJobAction::CheckRoom { room_id, mention_or_reply }),
            PushGate::Send => a matches PushJobAction::Send(p) && payload_of(p, notification->Some_0, show_details),
        },
        event matches PushJobEvent::RoomChecked(allowed) ==> if allowed && notification is Some {
            a matches PushJobAction::Send(p) && payload_of(p, notification->Some_0, show_details)
        } else {
            a is Complete
        },
        event matches PushJobEvent::Sent(outcome) ==> a == match outcome {
            PushSendOutcome::Delivered => PushJobAction::Complete,
            PushSendOutcome::Expired => PushJobAction::Expire,
            PushSendOutcome::Retryable => match planned_retry(attempts, max_attempts) {
                RetryPlan::GiveUp => PushJobAction::Complete,
                RetryPlan::Reschedule { attempts, delay_secs } => PushJobAction::Reschedule { attempts, delay_secs },
            },
        },
{
    match event {
        PushJobEvent::Loaded => match push_gate(notification) {
            PushGate::Complete => PushJobAction::Complete,
            PushGate::CheckRoom { room_id, mention_or_reply } => PushJobAction::CheckRoom { room_id, mention_or_reply },
            PushGate::Send => match notification {
                Some(n) => PushJobAction::Send(payload_for(n, show_details)),
                None => PushJobAction::Complete,
            },
        },
        PushJobEvent::RoomChecked(allowed) => match notification {
            Some(n) => if allowed {
                PushJobAction::Send(payload_for(n, show_details))
            } else {
                PushJobAction::Complete
            },
            None => PushJobAction::Complete,
        },
        PushJobEvent::Sent(outcome) => match outcome {
            PushSendOutcome::Delivered => PushJobAction::Complete,
            PushSendOutcome::Expired => PushJobAction::Expire,
            PushSendOutcome::Retryable => match retry_plan(attempts, max_attempts) {
                RetryPlan::GiveUp => PushJobAction::Complete,
                RetryPlan::Reschedule { attempts, delay_secs } => PushJobAction::Reschedule { attempts, delay_secs },
            },
        },
    }
}

} // verus!
