use aardbin::cli::{
    attachment_line, base_url, bearer_header, list_footer, list_line, no_key_message,
    prompted_key, resolve_key, resolve_url, retry_wait, title_line, Stream,
};

#[test]
fn url_and_key_resolution() {
    assert_eq!(resolve_url(Some("http://a"), Some("http://b"), Some("http://c")), "http://a");
    assert_eq!(resolve_url(None, Some("http://b"), Some("http://c")), "http://b");
    assert_eq!(resolve_url(None, None, Some("http://c")), "http://c");
    assert_eq!(resolve_url(None, None, None), "http://127.0.0.1:8080");
    assert_eq!(resolve_key(None, None, Some("k2"), Some("k3")), Some("k2".into()));
    assert_eq!(resolve_key(None, None, None, Some("k3")), Some("k3".into()));
    assert_eq!(resolve_key(None, None, None, None), None);
    assert_eq!(prompted_key("  secret \n"), Some("secret".into()));
    assert_eq!(prompted_key(" \n"), None);
    assert_eq!(no_key_message(), "No access key found. Set AARDBIN_ACCESS_KEY or use --key.");
    assert_eq!(base_url("http://h:1///"), "http://h:1");
    assert_eq!(bearer_header("k"), "Bearer k");
    assert_eq!(Stream::Stdin, Stream::Stdin);
}

#[test]
fn retry_plan() {
    assert_eq!(retry_wait(false, 0, Some("5")), None);
    assert_eq!(retry_wait(true, 0, Some("5")), Some(5));
    assert_eq!(retry_wait(true, 1, Some("5")), Some(10));
    assert_eq!(retry_wait(true, 2, Some("100")), Some(90));
    assert_eq!(retry_wait(true, 3, Some("5")), None);
    assert_eq!(retry_wait(true, 0, Some("soon")), Some(1));
    assert_eq!(retry_wait(true, 1, None), Some(2));
}

#[test]
fn printing() {
    assert_eq!(list_line("r1", "T", false, 0, "s"), "r1  T  s");
    assert_eq!(list_line("r1", "T", true, 2, "s"), "r1  (untitled) 📎×2  s");
    assert_eq!(list_footer(1, 3, 41), "Page 1/3 · 41 records");
    assert_eq!(title_line("x", false), "Title: x");
    assert_eq!(title_line("x", true), "(untitled)");
    assert_eq!(attachment_line("a1", 42, "f.txt"), "  a1 (42 bytes) — f.txt");
}
