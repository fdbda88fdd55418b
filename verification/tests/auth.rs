use spotstream::auth::{
    is_success_status, PairingError, PollAction, TokenPoll, TokenReply,
    WaitReason,
};
use spotstream::cache::{choose_cache_dir, CacheDirChoice};
use spotstream::{default_interval, DeviceAuthResponse};

fn reply(status: u16, token: Option<&str>, error: Option<&str>, body: &str) -> TokenReply {
    TokenReply::Response {
        status,
        access_token: token.map(|t| t.to_string()),
        error: error.map(|e| e.to_string()),
        body: body.to_string(),
    }
}

fn auth(complete: Option<&str>) -> DeviceAuthResponse {
    DeviceAuthResponse {
        device_code: "dev".to_string(),
        user_code: "ABCDEF".to_string(),
        verification_uri: "https://spotify.com/pair".to_string(),
        verification_uri_complete: complete.map(|c| c.to_string()),
        expires_in: 600,
        interval: 5,
    }
}

#[test]
fn default_interval_is_five_seconds() {
    assert_eq!(default_interval(), 5);
}

#[test]
fn pairing_link_prefers_complete_uri() {
    let a = auth(Some("https://spotify.com/pair?code=ABCDEF"));
    assert_eq!(a.pairing_link(), "https://spotify.com/pair?code=ABCDEF");
    let b = auth(None);
    assert_eq!(b.pairing_link(), "https://spotify.com/pair");
}

#[test]
fn success_statuses() {
    assert!(!is_success_status(199));
    assert!(is_success_status(200));
    assert!(is_success_status(299));
    assert!(!is_success_status(300));
    assert!(!is_success_status(400));
}

#[test]
fn poll_interval_never_below_three() {
    assert_eq!(TokenPoll::new(60, 0).poll_interval(), 3);
    assert_eq!(TokenPoll::new(60, 2).poll_interval(), 3);
    assert_eq!(TokenPoll::new(60, 3).poll_interval(), 3);
    assert_eq!(TokenPoll::new(60, 7).poll_interval(), 7);
}

#[test]
fn deadline() {
    let poll = TokenPoll::new(10, 5);
    assert!(poll.check_deadline(9, 999_999_999).is_ok());
    assert!(poll.check_deadline(10, 0).is_ok());
    assert!(matches!(
        poll.check_deadline(10, 1),
        Err(PairingError::TimedOut { expires_in: 10 })
    ));
    assert!(poll.check_deadline(11, 0).is_err());
}

#[test]
fn replies_lead_to_actions() {
    let mut poll = TokenPoll::new(600, 1);
    assert!(matches!(
        poll.on_reply(TokenReply::NetworkError),
        PollAction::Wait { secs: 3, reason: WaitReason::NetworkError }
    ));
    assert!(matches!(
        poll.on_reply(TokenReply::UnreadableBody),
        PollAction::Fail(PairingError::UnreadableTokenReply)
    ));
    match poll.on_reply(reply(200, Some("tok"), None, "{}")) {
        PollAction::Approved { access_token } => assert_eq!(access_token, "tok"),
        _ => panic!("expected approval"),
    }
    assert!(matches!(
        poll.on_reply(reply(200, None, None, "{}")),
        PollAction::Fail(PairingError::MalformedToken)
    ));
    assert!(matches!(
        poll.on_reply(reply(400, None, Some("authorization_pending"), "")),
        PollAction::Wait { secs: 3, reason: WaitReason::AuthorizationPending }
    ));
    assert!(matches!(
        TokenPoll::new(600, 9).on_reply(reply(400, None, Some("authorization_pending"), "")),
        PollAction::Wait { secs: 9, reason: WaitReason::AuthorizationPending }
    ));
    match poll.on_reply(reply(400, None, Some("access_denied"), "")) {
        PollAction::Fail(PairingError::Rejected { error }) => assert_eq!(error, "access_denied"),
        _ => panic!("expected rejection"),
    }
    match poll.on_reply(reply(502, None, None, "<html>")) {
        PollAction::Fail(PairingError::UnexpectedResponse { status, body }) => {
            assert_eq!(status, 502);
            assert_eq!(body, "<html>");
        }
        _ => panic!("expected unexpected response"),
    }
    // A token in a failed reply is not taken.
    assert!(matches!(
        poll.on_reply(reply(400, Some("tok"), None, "")),
        PollAction::Fail(PairingError::UnexpectedResponse { .. })
    ));
    // None of these replies changes the interval.
    assert_eq!(poll.interval, 1);
}

#[test]
fn slow_down_raises_interval_for_later_polls() {
    let mut poll = TokenPoll::new(600, 10);
    assert!(matches!(
        poll.on_reply(reply(400, None, Some("slow_down"), "")),
        PollAction::Wait { secs: 15, reason: WaitReason::SlowDown }
    ));
    assert_eq!(poll.interval, 15);
    assert!(matches!(
        poll.on_reply(reply(400, None, Some("authorization_pending"), "")),
        PollAction::Wait { secs: 15, reason: WaitReason::AuthorizationPending }
    ));
    assert!(matches!(
        poll.on_reply(TokenReply::NetworkError),
        PollAction::Wait { secs: 15, reason: WaitReason::NetworkError }
    ));
    assert!(matches!(
        poll.on_reply(reply(400, None, Some("slow_down"), "")),
        PollAction::Wait { secs: 20, reason: WaitReason::SlowDown }
    ));
    assert_eq!(poll.expires_in, 600);

    // The raise starts from the interval in force, which is at least 3.
    let mut short = TokenPoll::new(600, 1);
    assert!(matches!(
        short.on_reply(reply(400, None, Some("slow_down"), "")),
        PollAction::Wait { secs: 8, reason: WaitReason::SlowDown }
    ));

    // Near the top of the range the interval stays at the largest value.
    let mut huge = TokenPoll::new(600, u64::MAX - 2);
    assert!(matches!(
        huge.on_reply(reply(400, None, Some("slow_down"), "")),
        PollAction::Wait { secs: u64::MAX, reason: WaitReason::SlowDown }
    ));
    assert_eq!(huge.interval, u64::MAX);
}

#[test]
fn cache_dir_choice() {
    assert!(matches!(choose_cache_dir(true, Some("/x"), true), CacheDirChoice::Custom));
    match choose_cache_dir(false, Some("  /tmp/c \n"), true) {
        CacheDirChoice::FromEnv(dir) => assert_eq!(dir, "/tmp/c"),
        other => panic!("unexpected {other:?}"),
    }
    assert!(matches!(choose_cache_dir(false, Some("   "), true), CacheDirChoice::UnderLocalData));
    assert!(matches!(choose_cache_dir(false, None, true), CacheDirChoice::UnderLocalData));
    assert!(matches!(choose_cache_dir(false, None, false), CacheDirChoice::Fallback));
}
