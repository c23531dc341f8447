use chat_room::http::Status;
use chat_room::interop::Timestamp;
use chat_room::notifications::{NotificationKind, NotificationView};
use chat_room::push::{
    check_subscription, check_unsubscribe, payload_for, push_job_next, PushJobAction, PushJobEvent, public_config, push_gate, retry_plan,
    room_allows_push, send_outcome, valid_endpoint, valid_key, DeletePushSubscriptionRequest,
    PushGate, PushSendOutcome, PushSubscriptionKeys, RetryPlan, RoomPushPreference,
    SavePushSubscriptionRequest, SendResult, WebPushConfig, WebPushConfigError,
};

const AT: Timestamp = Timestamp { secs: 1_787_652_000, nanos: 0 };
const VALID_VAPID_KEY: &str = "AQEBAQEBAQEBAQEBAQEBAQEBAQEBAQEBAQEBAQEBAQE";

fn hosts() -> Vec<String> {
    vec!["fcm.googleapis.com".into(), "Push.Example".into()]
}

#[test]
fn endpoints_must_be_https_addresses_of_allowed_services() {
    assert!(valid_endpoint("https://fcm.googleapis.com/fcm/send/abc", &hosts()));
    assert!(valid_endpoint("https://PUSH.example/first", &hosts()));
    assert!(valid_endpoint("https://eu.push.example/first", &hosts()));
    assert!(!valid_endpoint("https://evilpush.example/first", &hosts()));
    assert!(!valid_endpoint("http://push.example/first", &hosts()));
    assert!(!valid_endpoint("https://user@push.example/first", &hosts()));
    assert!(!valid_endpoint("https://user:pw@push.example/first", &hosts()));
    assert!(!valid_endpoint("not a url", &hosts()));
    let long = format!("https://push.example/{}", "a".repeat(2048));
    assert!(!valid_endpoint(&long, &hosts()));
    let exact = format!("https://push.example/{}", "a".repeat(2048 - 21));
    assert_eq!(exact.len(), 2048);
    assert!(valid_endpoint(&exact, &hosts()));
}

#[test]
fn subscription_keys_are_url_safe_base64_text() {
    assert!(valid_key("abc-DEF_123", 256));
    assert!(!valid_key("", 256));
    assert!(!valid_key("a+b", 256));
    assert!(!valid_key("abcd", 3));
    assert!(valid_key("abc", 3));
    assert!(!valid_key("ké", 256));
}

fn config(enabled: bool) -> WebPushConfig {
    WebPushConfig {
        enabled,
        public_key: "public".into(),
        private_key: VALID_VAPID_KEY.into(),
        subject: "mailto:ops@example.com".into(),
        allowed_endpoint_hosts: hosts(),
        ..WebPushConfig::default()
    }
}

#[test]
fn default_settings_are_disabled_and_valid() {
    let c = WebPushConfig::default();
    assert!(!c.enabled);
    assert_eq!(c.allowed_endpoint_hosts.len(), 4);
    assert_eq!(c.allowed_endpoint_hosts[2], "web.push.apple.com");
    assert_eq!((c.poll_interval_ms, c.request_timeout_secs, c.max_attempts), (1000, 10, 5));
    assert_eq!(c.validate(), Ok(()));
}

#[test]
fn settings_are_checked_in_order() {
    assert_eq!(config(true).validate(), Ok(()));
    let mut c = config(true);
    c.poll_interval_ms = 0;
    assert_eq!(c.validate(), Err(WebPushConfigError::PollInterval));
    let mut c = config(true);
    c.request_timeout_secs = 61;
    assert_eq!(c.validate(), Err(WebPushConfigError::RequestTimeout));
    let mut c = config(true);
    c.max_attempts = 21;
    assert_eq!(c.validate(), Err(WebPushConfigError::MaxAttempts));
    let mut c = config(true);
    c.allowed_endpoint_hosts = vec!["push.example:443".into()];
    assert_eq!(c.validate(), Err(WebPushConfigError::EndpointHosts));
    let mut c = config(true);
    c.allowed_endpoint_hosts = vec![];
    assert_eq!(c.validate(), Err(WebPushConfigError::EndpointHosts));
    let mut c = config(true);
    c.allowed_endpoint_hosts = vec!["push example".into()];
    assert_eq!(c.validate(), Err(WebPushConfigError::EndpointHosts));
    let mut c = config(true);
    c.public_key = "  ".into();
    assert_eq!(c.validate(), Err(WebPushConfigError::MissingKeys));
    let mut c = config(true);
    c.subject = "ops@example.com".into();
    assert_eq!(c.validate(), Err(WebPushConfigError::Subject));
    let mut c = config(true);
    c.subject = "https://example.com".into();
    assert_eq!(c.validate(), Ok(()));
    let mut c = config(true);
    c.private_key = "not-a-key".into();
    assert_eq!(c.validate(), Err(WebPushConfigError::PrivateKey));
    let mut c = config(false);
    c.private_key = "not-a-key".into();
    assert_eq!(c.validate(), Ok(()));
    let mut c = config(true);
    c.private_key = "AQEB".into();
    assert_eq!(c.validate_checked(), None);
    c.enabled = false;
    assert_eq!(c.validate_checked(), Some(Ok(())));
    assert_eq!(config(true).validate_checked(), Some(Ok(())));
    let mut c = config(true);
    c.subject = "ftp://x".into();
    c.private_key = "AQEB".into();
    assert_eq!(c.validate_checked(), Some(Err(WebPushConfigError::Subject)));
    assert_eq!(
        WebPushConfigError::PrivateKey.message(),
        "web_push.private_key is not a valid URL-safe VAPID key"
    );
}

#[test]
fn public_settings_reveal_the_key_only_when_enabled() {
    let p = public_config(&config(true));
    assert!(p.enabled);
    assert_eq!(p.public_key.as_deref(), Some("public"));
    let p = public_config(&config(false));
    assert!(!p.enabled);
    assert_eq!(p.public_key, None);
}

fn subscription(endpoint: &str, p256dh: &str) -> SavePushSubscriptionRequest {
    SavePushSubscriptionRequest {
        endpoint: endpoint.into(),
        keys: PushSubscriptionKeys { p256dh: p256dh.into(), auth: "auth-key".into() },
        show_details: true,
    }
}

#[test]
fn subscriptions_are_checked_before_saving() {
    let good = subscription("https://push.example/first", "public-key");
    assert_eq!(check_subscription(&config(false), &good), Err(Status::NotFound));
    assert_eq!(check_subscription(&config(true), &good), Ok(()));
    let bad = subscription("https://elsewhere.example/first", "public-key");
    assert_eq!(check_subscription(&config(true), &bad), Err(Status::BadRequest));
    let bad = subscription("https://push.example/first", &"k".repeat(257));
    assert_eq!(check_subscription(&config(true), &bad), Err(Status::BadRequest));
    let remove = DeletePushSubscriptionRequest { endpoint: "https://push.example/first".into() };
    assert_eq!(check_unsubscribe(&config(false), &remove), Ok(()));
    let remove = DeletePushSubscriptionRequest { endpoint: "ftp://push.example/first".into() };
    assert_eq!(check_unsubscribe(&config(true), &remove), Err(Status::BadRequest));
}

fn view(kind: NotificationKind, room: Option<u128>, message: Option<u128>, run: Option<u128>) -> NotificationView {
    NotificationView {
        id: "n-7".into(),
        kind,
        actor: None,
        room_id: room,
        room_name: None,
        message_id: message,
        run_id: run,
        summary: "Private summary".into(),
        source_available: true,
        created_at: AT,
        read_at: None,
    }
}

#[test]
fn payloads_link_to_the_source_and_respect_the_detail_preference() {
    let p = payload_for(&view(NotificationKind::FriendRequest, None, None, None), false);
    assert_eq!(p.title, "Echo Gate");
    assert_eq!(p.body, None);
    assert_eq!(p.url, "/contacts");
    assert_eq!(p.tag, "notification:n-7");
    let p = payload_for(&view(NotificationKind::FriendRequest, None, None, None), true);
    assert_eq!(p.body.as_deref(), Some("Private summary"));
    let p = payload_for(&view(NotificationKind::AiRunCompleted, None, None, Some(1)), false);
    assert_eq!(p.url, "/assistant?run=00000000-0000-0000-0000-000000000001");
    let p = payload_for(&view(NotificationKind::AiRunCompleted, None, None, None), false);
    assert_eq!(p.url, "/assistant");
    let p = payload_for(&view(NotificationKind::Mention, Some(2), Some(3), None), false);
    assert_eq!(
        p.url,
        "/rooms/00000000-0000-0000-0000-000000000002?message=00000000-0000-0000-0000-000000000003"
    );
    let p = payload_for(&view(NotificationKind::RoomJoinRequest, Some(2), None, None), false);
    assert_eq!(p.url, "/rooms/00000000-0000-0000-0000-000000000002");
    let p = payload_for(&view(NotificationKind::Reply, None, None, None), false);
    assert_eq!(p.url, "/notifications");
}

#[test]
fn jobs_are_gated_by_the_notification_and_room_settings() {
    assert_eq!(push_gate(&None), PushGate::Complete);
    let mut unavailable = view(NotificationKind::Mention, Some(2), None, None);
    unavailable.source_available = false;
    assert_eq!(push_gate(&Some(unavailable)), PushGate::Complete);
    assert_eq!(
        push_gate(&Some(view(NotificationKind::Mention, Some(2), None, None))),
        PushGate::CheckRoom { room_id: 2, mention_or_reply: true }
    );
    assert_eq!(
        push_gate(&Some(view(NotificationKind::RoomJoinRequest, Some(2), None, None))),
        PushGate::CheckRoom { room_id: 2, mention_or_reply: false }
    );
    assert_eq!(push_gate(&Some(view(NotificationKind::FriendRequest, None, None, None))), PushGate::Send);
}

fn preference(level: &str, muted_until: Option<Timestamp>) -> Option<RoomPushPreference> {
    Some(RoomPushPreference { notification_level: level.into(), muted_until })
}

#[test]
fn room_preferences_gate_delivery_at_send_time_decision() {
    assert!(room_allows_push(&preference("all", None), AT, false));
    assert!(!room_allows_push(&preference("mentions", None), AT, false));
    assert!(room_allows_push(&preference("mentions", None), AT, true));
    let later = Timestamp { secs: AT.secs + 3600, nanos: 0 };
    assert!(!room_allows_push(&preference("all", Some(later)), AT, true));
    let earlier = Timestamp { secs: AT.secs - 1, nanos: 0 };
    assert!(room_allows_push(&preference("all", Some(earlier)), AT, true));
    assert!(!room_allows_push(&preference("none", None), AT, true));
    assert!(!room_allows_push(&None, AT, true));
}

#[test]
fn send_results_are_classified() {
    assert_eq!(send_outcome(SendResult::Status(201)), PushSendOutcome::Delivered);
    assert_eq!(send_outcome(SendResult::Status(404)), PushSendOutcome::Expired);
    assert_eq!(send_outcome(SendResult::Status(410)), PushSendOutcome::Expired);
    assert_eq!(send_outcome(SendResult::Status(400)), PushSendOutcome::Expired);
    assert_eq!(send_outcome(SendResult::Status(429)), PushSendOutcome::Retryable);
    assert_eq!(send_outcome(SendResult::Status(500)), PushSendOutcome::Retryable);
    assert_eq!(send_outcome(SendResult::InvalidSubscription), PushSendOutcome::Expired);
    assert_eq!(send_outcome(SendResult::Failed), PushSendOutcome::Retryable);
}

#[test]
fn retries_back_off_and_give_up() {
    assert_eq!(retry_plan(0, 5), RetryPlan::Reschedule { attempts: 1, delay_secs: 2 });
    assert_eq!(retry_plan(3, 5), RetryPlan::Reschedule { attempts: 4, delay_secs: 16 });
    assert_eq!(retry_plan(4, 5), RetryPlan::GiveUp);
    assert_eq!(retry_plan(8, 20), RetryPlan::Reschedule { attempts: 9, delay_secs: 300 });
    assert_eq!(retry_plan(-3, 5), RetryPlan::Reschedule { attempts: -2, delay_secs: 300 });
    assert_eq!(retry_plan(i32::MAX, i32::MAX), RetryPlan::GiveUp);
}

#[test]
fn a_claimed_job_goes_through_gate_room_send_and_outcome() {
    let in_room = Some(view(NotificationKind::Mention, Some(5), Some(6), None));
    assert!(matches!(
        push_job_next(&in_room, true, 0, 5, PushJobEvent::Loaded),
        PushJobAction::CheckRoom { room_id: 5, mention_or_reply: true }
    ));
    assert!(matches!(push_job_next(&in_room, true, 0, 5, PushJobEvent::RoomChecked(false)), PushJobAction::Complete));
    match push_job_next(&in_room, true, 0, 5, PushJobEvent::RoomChecked(true)) {
        PushJobAction::Send(p) => assert_eq!(p.body.as_deref(), Some("Private summary")),
        _ => panic!("expected a send"),
    }
    let contact = Some(view(NotificationKind::FriendRequest, None, None, None));
    match push_job_next(&contact, false, 0, 5, PushJobEvent::Loaded) {
        PushJobAction::Send(p) => assert_eq!((p.url.as_str(), p.body), ("/contacts", None)),
        _ => panic!("expected a send"),
    }
    assert!(matches!(push_job_next(&None, true, 0, 5, PushJobEvent::Loaded), PushJobAction::Complete));
    let sent = |outcome, attempts| push_job_next(&contact, false, attempts, 5, PushJobEvent::Sent(outcome));
    assert!(matches!(sent(PushSendOutcome::Delivered, 0), PushJobAction::Complete));
    assert!(matches!(sent(PushSendOutcome::Expired, 0), PushJobAction::Expire));
    assert!(matches!(sent(PushSendOutcome::Retryable, 0), PushJobAction::Reschedule { attempts: 1, delay_secs: 2 }));
    assert!(matches!(sent(PushSendOutcome::Retryable, 4), PushJobAction::Complete));
}
