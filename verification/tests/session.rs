use aardbin::session::{extract_valid_session, session_cookie_value, SessionManager};

const COOKIE_NAME: &str = "aardbin_session";

fn mgr() -> SessionManager {
    SessionManager::new("test-access-key-0123456789", 3600, true)
}

#[test]
fn issue_and_validate() {
    let m = mgr();
    let v = m.issue();
    assert!(m.validate(&v));
}

#[test]
fn tampered_mac_rejected() {
    let m = mgr();
    let v = m.issue();
    let mut bad = v.clone();
    let n = bad.len();
    let last = bad.chars().last().unwrap();
    let repl = if last == 'a' { 'b' } else { 'a' };
    bad.replace_range(n - 1.., &repl.to_string());
    assert!(!m.validate(&bad));
}

#[test]
fn tampered_expiry_rejected() {
    let m = mgr();
    let v = m.issue();
    // extend expiry without re-signing → mac no longer matches
    let parts: Vec<&str> = v.splitn(3, '.').collect();
    let forged = format!(
        "v1.{}.{}",
        parts[1].parse::<u64>().unwrap() + 10,
        parts[2]
    );
    assert!(!m.validate(&forged));
}

#[test]
fn wrong_access_key_rejected() {
    let m1 = mgr();
    let m2 = SessionManager::new("different-key-0123456789", 3600, true);
    assert!(!m2.validate(&m1.issue()));
}

#[test]
fn expired_rejected() {
    let m = SessionManager::new("k-0123456789abcdef", 0, true);
    // ttl=0 → expiry == issue time; validation 1.1 s later (the next
    // second) requires expiry > now
    let issued_at = 1_700_000_000u64;
    let v = m.issue_at(issued_at);
    assert!(!m.validate_at(&v, issued_at + 1));
    assert!(!m.validate_at(&v, issued_at));
}

#[test]
fn garbage_rejected() {
    let m = mgr();
    assert!(!m.validate(""));
    assert!(!m.validate("v1"));
    assert!(!m.validate("v1.abc.def"));
    assert!(!m.validate("v2.9999999999.aa"));
}

#[test]
fn cookie_extraction() {
    let m = mgr();
    let v = m.issue();
    assert!(extract_valid_session(
        Some(&format!("other=x; {COOKIE_NAME}={v}; more=y")),
        &m
    ));
    assert!(!extract_valid_session(Some("other=x"), &m));
    assert!(!extract_valid_session(None, &m));
}

#[test]
fn set_cookie_flags() {
    let secure = mgr().issue_set_cookie();
    assert!(secure.contains("HttpOnly"));
    assert!(secure.contains("SameSite=Lax"));
    assert!(secure.contains("Secure"));
    assert!(secure.contains("Max-Age=3600"));

    let insecure = SessionManager::new("k-0123456789abcdef", 60, false).issue_set_cookie();
    assert!(!insecure.contains("Secure"));

    let cleared = mgr().clear_set_cookie();
    assert!(cleared.contains("Max-Age=0"));
}

#[test]
fn token_shape_and_lifetime() {
    let m = mgr();
    let v = m.issue_at(1000);
    let parts: Vec<&str> = v.splitn(3, '.').collect();
    assert_eq!(parts[0], "v1");
    assert_eq!(parts[1], "4600");
    assert_eq!(parts[2].len(), 64);
    assert!(parts[2].chars().all(|c| c.is_ascii_hexdigit() && !c.is_ascii_uppercase()));
    assert!(m.validate_at(&v, 4599));
    assert!(!m.validate_at(&v, 4600));
    // survives a restart: a new manager from the same key accepts it
    let again = SessionManager::new("test-access-key-0123456789", 60, false);
    assert!(again.validate_at(&v, 2000));
    // the MAC is no echo of the message
    assert_ne!(parts[2], "v1.4600");
    assert_ne!(m.issue_at(1001), v);
}

#[test]
fn set_cookie_exact_text() {
    let c = SessionManager::new("k-0123456789abcdef", 60, false).issue_set_cookie_at(100);
    assert!(c.starts_with("aardbin_session=v1.160."));
    assert!(c.ends_with("; Path=/; HttpOnly; SameSite=Lax; Max-Age=60"));
    assert_eq!(
        mgr().clear_set_cookie(),
        "aardbin_session=; Path=/; HttpOnly; SameSite=Lax; Max-Age=0; Secure"
    );
    assert_eq!(
        session_cookie_value(Some("a=b; aardbin_session=v1.1.x")),
        Some("v1.1.x".to_string())
    );
}
