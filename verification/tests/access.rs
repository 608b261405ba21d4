use aardbin::access::{api_authorize, api_authorize_at, login, login_at, ApiAuthOutcome, LoginOutcome};
use aardbin::ratelimit::{IpKey, LoginRateLimiter};
use aardbin::session::SessionManager;

const KEY: &str = "test-access-key-0123456789";

#[test]
fn login_accepts_the_key_and_clears_failures() {
    let mut rl = LoginRateLimiter::new();
    let sessions = SessionManager::new(KEY, 3600, true);
    let ip = IpKey::V4(7);
    for _ in 0..4 {
        assert!(matches!(login(&mut rl, &sessions, ip, "nope", KEY), LoginOutcome::Rejected));
    }
    match login(&mut rl, &sessions, ip, KEY, KEY) {
        LoginOutcome::Accepted(cookie) => {
            assert!(cookie.starts_with("aardbin_session=v1."));
            let value = cookie["aardbin_session=".len()..].split(';').next().unwrap().to_string();
            assert!(sessions.validate(&value));
        }
        other => panic!("unexpected {other:?}"),
    }
    // the counter was cleared: four more failures do not lock out
    for _ in 0..4 {
        assert!(matches!(login(&mut rl, &sessions, ip, "nope", KEY), LoginOutcome::Rejected));
    }
    assert!(rl.check(ip).is_ok());
}

#[test]
fn login_locks_out_after_five_failures() {
    let mut rl = LoginRateLimiter::new();
    let sessions = SessionManager::new(KEY, 3600, true);
    let ip = IpKey::V4(8);
    for _ in 0..5 {
        assert!(matches!(login(&mut rl, &sessions, ip, "nope", KEY), LoginOutcome::Rejected));
    }
    match login(&mut rl, &sessions, ip, KEY, KEY) {
        LoginOutcome::Throttled(m, secs) => {
            assert_eq!(m, "Too many attempts. Try again in 5 minutes.");
            assert!(secs > 240 && secs <= 300);
        }
        other => panic!("unexpected {other:?}"),
    }
}

#[test]
fn api_auth_outcomes() {
    let mut rl = LoginRateLimiter::new();
    let ip = IpKey::V6(9);
    assert_eq!(api_authorize(&mut rl, ip, None, KEY), ApiAuthOutcome::MissingHeader);
    assert_eq!(api_authorize(&mut rl, ip, Some(KEY), KEY), ApiAuthOutcome::BadFormat);
    assert_eq!(api_authorize(&mut rl, ip, Some("bearer x"), KEY), ApiAuthOutcome::BadFormat);
    assert_eq!(
        api_authorize(&mut rl, ip, Some(&format!("Bearer {KEY}")), KEY),
        ApiAuthOutcome::Authorized
    );
    assert_eq!(api_authorize(&mut rl, ip, Some("Bearer wrong"), KEY), ApiAuthOutcome::BadKey);
    assert_eq!(ApiAuthOutcome::BadKey.status(), 401);
    assert_eq!(ApiAuthOutcome::BadKey.error_text(), "invalid access key");
    assert_eq!(ApiAuthOutcome::MissingHeader.error_text(), "missing Authorization header");
    assert_eq!(ApiAuthOutcome::BadFormat.error_text(), "invalid Authorization format");
}

#[test]
fn api_success_does_not_clear_failures() {
    let mut rl = LoginRateLimiter::new();
    let ip = IpKey::V4(10);
    let good = format!("Bearer {KEY}");
    for _ in 0..4 {
        assert_eq!(api_authorize(&mut rl, ip, Some("Bearer wrong-key-wrong-key"), KEY), ApiAuthOutcome::BadKey);
    }
    assert_eq!(api_authorize(&mut rl, ip, Some(&good), KEY), ApiAuthOutcome::Authorized);
    assert_eq!(api_authorize(&mut rl, ip, Some("Bearer wrong-key-wrong-key"), KEY), ApiAuthOutcome::BadKey);
    match api_authorize(&mut rl, ip, Some(&good), KEY) {
        ApiAuthOutcome::Throttled(secs) => {
            assert!(secs > 0 && secs <= 300);
            let o = ApiAuthOutcome::Throttled(secs);
            assert_eq!(o.status(), 429);
            assert_eq!(o.error_text(), format!("Too many attempts. Try again in {secs} seconds."));
        }
        other => panic!("unexpected {other:?}"),
    }
}

#[test]
fn login_at_explicit_times() {
    let mut rl = LoginRateLimiter::new();
    let sessions = SessionManager::new(KEY, 60, false);
    let ip = IpKey::V4(11);
    let s = 1_000_000_000u64;
    for i in 0..5u64 {
        assert!(matches!(login_at(&mut rl, &sessions, ip, "bad", KEY, i * s, 0), LoginOutcome::Rejected));
    }
    match login_at(&mut rl, &sessions, ip, KEY, KEY, 100 * s, 0) {
        LoginOutcome::Throttled(m, secs) => {
            assert_eq!(secs, 200);
            assert_eq!(m, "Too many attempts. Try again in 4 minutes.");
        }
        other => panic!("unexpected {other:?}"),
    }
    // the window of the first failure is over at 300 s
    match login_at(&mut rl, &sessions, ip, KEY, KEY, 300 * s, 1000) {
        LoginOutcome::Accepted(c) => assert!(c.starts_with("aardbin_session=v1.1060.")),
        other => panic!("unexpected {other:?}"),
    }
}

#[test]
fn api_authorize_at_explicit_times() {
    let mut rl = LoginRateLimiter::new();
    let ip = IpKey::V4(12);
    let s = 1_000_000_000u64;
    for i in 0..5u64 {
        assert_eq!(api_authorize_at(&mut rl, ip, Some("Bearer x"), KEY, i * s), ApiAuthOutcome::BadKey);
    }
    let good = format!("Bearer {KEY}");
    assert_eq!(api_authorize_at(&mut rl, ip, Some(&good), KEY, 10 * s), ApiAuthOutcome::Throttled(290));
    assert_eq!(api_authorize_at(&mut rl, ip, Some(&good), KEY, 301 * s), ApiAuthOutcome::Authorized);
}
