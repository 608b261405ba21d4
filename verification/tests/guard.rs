use aardbin::guard::{auth_verdict, origin_verdict, AuthVerdict, OriginVerdict};
use aardbin::session::SessionManager;

#[test]
fn session_guard() {
    let m = SessionManager::new("test-access-key-0123456789", 3600, true);
    let v = m.issue();
    let cookie = format!("aardbin_session={v}");
    assert_eq!(auth_verdict(Some(&cookie), None, &m), AuthVerdict::Pass);
    assert_eq!(auth_verdict(None, Some("true"), &m), AuthVerdict::HtmxLogin);
    assert_eq!(auth_verdict(None, Some("TRUE"), &m), AuthVerdict::RedirectLogin);
    assert_eq!(auth_verdict(Some("aardbin_session=v1.1.00"), None, &m), AuthVerdict::RedirectLogin);
}

#[test]
fn origin_guard_decisions() {
    assert_eq!(origin_verdict(false, Some(Some("cross-site")), None, None), OriginVerdict::Pass);
    assert_eq!(origin_verdict(true, None, None, None), OriginVerdict::Pass);
    assert_eq!(origin_verdict(true, Some(Some("same-origin")), None, None), OriginVerdict::Pass);
    assert_eq!(origin_verdict(true, Some(Some("none")), None, None), OriginVerdict::Pass);
    assert_eq!(origin_verdict(true, Some(Some("cross-site")), None, None), OriginVerdict::CrossSite);
    assert_eq!(origin_verdict(true, Some(None), None, None), OriginVerdict::CrossSite);
    assert_eq!(
        origin_verdict(true, None, Some(Some("https://Bin.Example.com/")), Some("bin.example.COM")),
        OriginVerdict::Pass
    );
    assert_eq!(
        origin_verdict(true, None, Some(Some("https://evil.com")), Some("bin.example.com")),
        OriginVerdict::OriginMismatch
    );
    assert_eq!(
        origin_verdict(true, None, Some(Some("null")), Some("bin.example.com")),
        OriginVerdict::OriginMismatch
    );
    assert_eq!(
        origin_verdict(true, None, Some(Some("http://h:8080")), None),
        OriginVerdict::OriginMismatch
    );
    assert_eq!(
        origin_verdict(true, None, Some(Some("http://h:8080//")), Some("h:8080")),
        OriginVerdict::Pass
    );
}
